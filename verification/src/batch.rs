//! The list of addresses to download.
use vstd::prelude::*;
use vstd::string::*;
use crate::text::{opt_text, separators_divide_a_text, split_by, trim, trimmed};

verus! {

/// The lines of a text, without the line feeds that separate them.
pub open spec fn lines_of(content: Seq<char>) -> Seq<Seq<char>> {
    split_by(content, '\n')
}

/// What the lines hold, without the white space around it; blank lines are left out.
pub open spec fn entries_of(lines: Seq<Seq<char>>) -> Seq<Seq<char>>
    decreases lines.len(),
{
    if lines.len() == 0 {
        Seq::empty()
    } else {
        let entry = trimmed(lines.last());
        if entry.len() > 0 {
            entries_of(lines.drop_last()).push(entry)
        } else {
            entries_of(lines.drop_last())
        }
    }
}

/// All addresses: the one given directly, if any, and then those in the list, if any.
pub open spec fn all_urls(url: Option<Seq<char>>, content: Option<Seq<char>>) -> Seq<Seq<char>> {
    let direct = match url {
        Some(u) => seq![u],
        None => Seq::empty(),
    };
    match content {
        Some(c) => direct + entries_of(lines_of(c)),
        None => direct,
    }
}

/// `String::push` appends one character.
pub assume_specification[ String::push ](s: &mut String, c: char)
    ensures
        final(s)@ == old(s)@.push(c),
;

/// Adds what a line holds to the list, unless it is blank.
fn push_entry(urls: &mut Vec<String>, line: &str)
    ensures
        final(urls).deep_view() == if trimmed(line@).len() > 0 {
            old(urls).deep_view().push(trimmed(line@))
        } else {
            old(urls).deep_view()
        },
{
    let entry = trim(line);
    if !entry.is_empty() {
        urls.push(entry.to_string());
        assert(urls.deep_view() =~= old(urls).deep_view().push(trimmed(line@)));
    }
}

/// The addresses to download: the one given directly and those that a list holds, one on
/// each line.
pub fn collect_urls(url: Option<String>, content: Option<String>) -> (urls: Vec<String>)
    ensures
        urls.deep_view() == all_urls(opt_text(url), opt_text(content)),
{
    let mut urls: Vec<String> = Vec::new();
    assert(urls.deep_view() =~= Seq::empty());
    if let Some(u) = url {
        urls.push(u);
        assert(urls.deep_view() =~= seq![u@]);
    }
    let ghost direct = urls.deep_view();
    if let Some(text) = content {
        let mut line = String::new();
        proof {
            let start = lines_of(text@.take(0));
            assert(start.last() =~= Seq::empty());
            assert(start.drop_last() =~= Seq::empty());
            assert(urls.deep_view() =~= direct + entries_of(start.drop_last()));
        }
        for c in it: text.as_str().chars()
            invariant
                it.seq() == text@,
                lines_of(text@.take(it.index())).len() > 0,
                line@ == lines_of(text@.take(it.index())).last(),
                urls.deep_view() == direct + entries_of(
                    lines_of(text@.take(it.index())).drop_last(),
                ),
        {
            proof {
                let i = it.index();
                let before = lines_of(text@.take(i));
                let after = lines_of(text@.take(i + 1));
                assert(text@.take(i + 1).drop_last() =~= text@.take(i));
                assert(text@.take(i + 1).last() == c);
                if c == '\n' {
                    assert(after.drop_last() =~= before);
                } else {
                    assert(after.drop_last() =~= before.drop_last());
                }
                assert((direct + entries_of(before.drop_last())).push(trimmed(line@)) =~= direct
                    + entries_of(before.drop_last()).push(trimmed(line@)));
            }
            if c == '\n' {
                push_entry(&mut urls, line.as_str());
                line = String::new();
            } else {
                line.push(c);
            }
        }
        proof {
            assert(text@.take(text@.len() as int) =~= text@);
            let lines = lines_of(text@);
            assert((direct + entries_of(lines.drop_last())).push(trimmed(line@)) =~= direct
                + entries_of(lines.drop_last()).push(trimmed(line@)));
        }
        push_entry(&mut urls, line.as_str());
    }
    urls
}

/// Where each of so many downloads is written, if `output` was asked for.
pub open spec fn output_of_each(output: Option<Seq<char>>, count: nat) -> Option<Seq<char>> {
    if count > 1 {
        None
    } else {
        output
    }
}

/// Where to write a download: several downloads do not share the output that was asked
/// for, so with more than one address it is ignored.
pub fn output_for(output: &Option<String>, num_urls: usize) -> (r: Option<String>)
    ensures
        opt_text(r) == if num_urls > 1 {
            None
        } else {
            opt_text(*output)
        },
        opt_text(r) == output_of_each(opt_text(*output), num_urls as nat),
{
    if num_urls > 1 {
        None
    } else {
        match output {
            Some(path) => Some(path.clone()),
            None => None,
        }
    }
}

/// No address in a list is blank or has white space at its ends.
pub proof fn entries_are_trimmed(lines: Seq<Seq<char>>)
    ensures
        forall|i: int|
            0 <= i < entries_of(lines).len() ==> {
                let entry = #[trigger] entries_of(lines)[i];
                &&& entry.len() > 0
                &&& trimmed(entry) == entry
            },
    decreases lines.len(),
{
    if lines.len() > 0 {
        entries_are_trimmed(lines.drop_last());
        crate::text::trimming_is_final(lines.last());
        let before = entries_of(lines.drop_last());
        assert forall|i: int| 0 <= i < entries_of(lines).len() implies {
            let entry = #[trigger] entries_of(lines)[i];
            &&& entry.len() > 0
            &&& trimmed(entry) == entry
        } by {
            if i < before.len() {
                assert(entries_of(lines)[i] == before[i]);
            }
        }
    }
}

proof fn lemma_entries_concat(first: Seq<Seq<char>>, second: Seq<Seq<char>>)
    ensures
        entries_of(first + second) == entries_of(first) + entries_of(second),
    decreases second.len(),
{
    if second.len() == 0 {
        assert(first + second =~= first);
        assert(entries_of(first) + entries_of(second) =~= entries_of(first));
    } else {
        lemma_entries_concat(first, second.drop_last());
        assert((first + second).drop_last() =~= first + second.drop_last());
        assert(entries_of(first + second) =~= entries_of(first) + entries_of(second));
    }
}

proof fn lemma_lines_concat(first: Seq<char>, second: Seq<char>)
    ensures
        lines_of(second).len() > 0,
        lines_of(first.push('\n') + second) == lines_of(first) + lines_of(second),
{
    separators_divide_a_text(first, second, '\n');
    crate::text::last_part_follows_the_last_separator(second, '\n');
}

/// Two lists written one below the other list the addresses of the first and then those of
/// the second.
pub proof fn lists_keep_their_order(first: Seq<char>, second: Seq<char>)
    ensures
        entries_of(lines_of(first.push('\n') + second)) == entries_of(lines_of(first))
            + entries_of(lines_of(second)),
{
    lemma_lines_concat(first, second);
    lemma_entries_concat(lines_of(first), lines_of(second));
}

/// A line is one address, as it is written but for the white space around it, unless it is
/// blank.
pub proof fn line_is_one_address(line: Seq<char>)
    requires
        !line.contains('\n'),
    ensures
        trimmed(line).len() > 0 ==> entries_of(lines_of(line)) == seq![trimmed(line)],
        trimmed(line).len() == 0 ==> entries_of(lines_of(line)) == Seq::<Seq<char>>::empty(),
{
    separators_divide_a_text(line, line, '\n');
    assert(seq![line].drop_last() =~= Seq::empty());
    assert(entries_of(Seq::<Seq<char>>::empty()) =~= Seq::empty());
    assert(entries_of(seq![line]) =~= if trimmed(line).len() > 0 {
        seq![trimmed(line)]
    } else {
        Seq::empty()
    });
}

/// The address that is given directly comes first and stays as it is; the list follows, as it
/// would without that address.
pub proof fn direct_address_comes_before_the_list(url: Seq<char>, content: Seq<char>)
    ensures
        all_urls(Some(url), None) == seq![url],
        all_urls(None, Some(content)) == entries_of(lines_of(content)),
        all_urls(Some(url), Some(content)) == seq![url] + entries_of(lines_of(content)),
        all_urls(None, None) == Seq::<Seq<char>>::empty(),
{
    assert(Seq::<Seq<char>>::empty() + entries_of(lines_of(content)) =~= entries_of(
        lines_of(content),
    ));
}

/// A single download is written where it was asked for; no two downloads share an output.
pub proof fn only_a_single_download_has_the_output(output: Seq<char>, count: nat)
    ensures
        output_of_each(Some(output), count) is Some <==> count <= 1,
        output_of_each(Some(output), 1) == Some(output),
        output_of_each(None, count) is None,
{
}

} // verus!
