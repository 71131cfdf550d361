//! The list of enabled actions as it is kept in a file.

use crate::enabled_actions::{paths_of, EnabledEntry, EnabledList};
use crate::utils::action_path::ActionPathView;
use vstd::prelude::*;
use vstd::string::StringExecFns;

verus! {

/// A comment line of the file.
pub open spec fn comment_line(comment: Seq<char>) -> Seq<char> {
    "#: "@ + comment + "\n"@
}

/// The line of the file that stands for an enabled action.
pub open spec fn entry_line(path: ActionPathView) -> Seq<char> {
    "action:"@ + path.text() + "\n"@
}

/// The lines of the file that stand for the actions of a list.
pub open spec fn entry_lines(paths: Seq<ActionPathView>) -> Seq<char>
    decreases paths.len(),
{
    if paths.len() == 0 {
        Seq::empty()
    } else {
        entry_lines(paths.drop_last()) + entry_line(paths.last())
    }
}

/// The whole file: two comment lines that warn the reader off, then one line
/// for each enabled action.
pub open spec fn file_text(paths: Seq<ActionPathView>) -> Seq<char> {
    comment_line("This file is managed by maidono"@) + comment_line(
        "please do not modify it manually"@,
    ) + entry_lines(paths)
}

/// Appends the whole file for `list` to `output`.
pub fn write_enabled_actions_file(output: &mut String, list: &EnabledList)
    ensures
        final(output)@ == old(output)@ + file_text(list@),
{
    write_enabled_action_comment(output, "This file is managed by maidono");
    write_enabled_action_comment(output, "please do not modify it manually");
    let ghost start = output@;
    let entries = list.entries();
    let mut i: usize = 0;
    assert(list@.take(0) =~= Seq::<ActionPathView>::empty());
    assert(start + entry_lines(list@.take(0)) =~= start);
    while i < entries.len()
        invariant
            i <= entries.len(),
            paths_of(entries@) == list@,
            output@ == start + entry_lines(list@.take(i as int)),
        decreases entries.len() - i,
    {
        proof {
            assert(list@.take(i + 1).drop_last() =~= list@.take(i as int));
            assert(list@.take(i + 1).last() == entries[i as int]@);
        }
        write_enabled_action_entry(output, &entries[i]);
        assert(output@ =~= start + entry_lines(list@.take(i + 1)));
        i += 1;
    }
    assert(list@.take(i as int) =~= list@);
    assert(output@ =~= old(output)@ + file_text(list@));
}

/// Appends a comment line to `output`.
pub fn write_enabled_action_comment(output: &mut String, comment: &str)
    ensures
        final(output)@ == old(output)@ + comment_line(comment@),
{
    output.append("#: ");
    output.append(comment);
    output.append("\n");
    assert(output@ =~= old(output)@ + comment_line(comment@));
}

/// Appends the line for one entry to `output`.
pub fn write_enabled_action_entry(output: &mut String, entry: &EnabledEntry)
    ensures
        final(output)@ == old(output)@ + entry_line(entry@),
{
    match entry {
        EnabledEntry::Action(path) => {
            let text = path.to_string();
            output.append("action:");
            output.append(text.as_str());
            output.append("\n");
        },
    }
    assert(output@ =~= old(output)@ + entry_line(entry@));
}

} // verus!
