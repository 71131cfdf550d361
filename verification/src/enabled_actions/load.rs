//! Reading the list of enabled actions back from its file.

use crate::enabled_actions::{paths_of, EnabledEntry, EnabledList};
use crate::utils::action_path::{missing_action_message, parsed, ActionPath, ActionPathView};
use crate::utils::error::{Error, ErrorView};
use crate::utils::text::{head_before, lines, lines_of, same_text, split_in_two, tail_after};
use vstd::prelude::*;
use vstd::string::StringExecFns;

verus! {

/// The message for a line that is neither a comment nor an entry.
pub open spec fn invalid_entry_message(line: Seq<char>) -> Seq<char> {
    "invalid entry '"@ + line + "'"@
}

/// The message for an entry of a kind that the file does not know.
pub open spec fn invalid_scope_message(scope: Seq<char>) -> Seq<char> {
    "invalid scope '"@ + scope + "'"@
}

/// What a line of the file says. What stands before the first colon is the
/// kind of the line: `action` is followed by the path of an enabled action,
/// `#` marks a comment, which says nothing. Any other line is an error.
pub open spec fn parsed_entry(line: Seq<char>) -> Result<Option<ActionPathView>, ErrorView> {
    let scope = head_before(line, ':');
    let rest = tail_after(line, ':');
    if scope == "action"@ && rest is Some {
        match parsed(rest->0) {
            Some(path) => Ok(Some(path)),
            None => Err(ErrorView::Message(missing_action_message(rest->0))),
        }
    } else if scope == "#"@ {
        Ok(None)
    } else if rest is None {
        Err(ErrorView::Message(invalid_entry_message(line)))
    } else {
        Err(ErrorView::Message(invalid_scope_message(scope)))
    }
}

/// What the lines of a file say together: the enabled actions in the order
/// of their lines, or the error of the first line that is one.
pub open spec fn parsed_entries(lines: Seq<Seq<char>>) -> Result<Seq<ActionPathView>, ErrorView>
    decreases lines.len(),
{
    if lines.len() == 0 {
        Ok(Seq::empty())
    } else {
        match parsed_entries(lines.drop_last()) {
            Err(error) => Err(error),
            Ok(paths) => match parsed_entry(lines.last()) {
                Err(error) => Err(error),
                Ok(Some(path)) => Ok(paths.push(path)),
                Ok(None) => Ok(paths),
            },
        }
    }
}

/// The list that the text of a file holds.
pub fn parse_enabled_actions_file(contents: String) -> (result: Result<EnabledList, Error>)
    ensures
        match result {
            Ok(list) => parsed_entries(lines_of(contents@)) == Ok::<_, ErrorView>(list@),
            Err(error) => parsed_entries(lines_of(contents@)) == Err::<Seq<ActionPathView>, _>(
                error@,
            ),
        },
{
    let mut enabled: Vec<EnabledEntry> = Vec::new();
    let all = lines(contents.as_str());
    let ghost written = lines_of(contents@);
    let mut i: usize = 0;
    assert(written.take(0) =~= Seq::<Seq<char>>::empty());
    assert(paths_of(enabled@) =~= Seq::<ActionPathView>::empty());
    while i < all.len()
        invariant
            i <= all.len(),
            written == lines_of(contents@),
            all.len() == written.len(),
            forall|j: int| 0 <= j < all.len() ==> all[j]@ == #[trigger] written[j],
            parsed_entries(written.take(i as int)) == Ok::<_, ErrorView>(paths_of(enabled@)),
        decreases all.len() - i,
    {
        proof {
            assert(written.take(i + 1).drop_last() =~= written.take(i as int));
            assert(written.take(i + 1).last() == written[i as int]);
        }
        match parse_enabled_action_entry(all[i]) {
            Err(error) => {
                proof {
                    lemma_first_error_stays(written, i + 1);
                }
                return Err(error);
            },
            Ok(Some(entry)) => {
                let ghost held = paths_of(enabled@);
                enabled.push(entry);
                assert(paths_of(enabled@) =~= held.push(entry@));
            },
            Ok(None) => {},
        }
        i += 1;
    }
    assert(written.take(i as int) =~= written);
    Ok(EnabledList::new(enabled))
}

/// An error among the first lines of a file is the error of the whole file.
pub proof fn lemma_first_error_stays(lines: Seq<Seq<char>>, n: int)
    requires
        0 <= n <= lines.len(),
        parsed_entries(lines.take(n)) is Err,
    ensures
        parsed_entries(lines) == parsed_entries(lines.take(n)),
    decreases lines.len() - n,
{
    if n < lines.len() {
        assert(lines.take(n + 1).drop_last() =~= lines.take(n));
        lemma_first_error_stays(lines, n + 1);
    } else {
        assert(lines.take(n) =~= lines);
    }
}

/// What one line of the file says.
pub fn parse_enabled_action_entry(line: &str) -> (result: Result<Option<EnabledEntry>, Error>)
    ensures
        match result {
            Ok(Some(entry)) => parsed_entry(line@) == Ok::<_, ErrorView>(Some(entry@)),
            Ok(None) => parsed_entry(line@) == Ok::<Option<ActionPathView>, ErrorView>(None),
            Err(error) => parsed_entry(line@) == Err::<Option<ActionPathView>, _>(error@),
        },
{
    let (scope, rest) = split_in_two(line, ':');
    if same_text(scope, "action") && rest.is_some() {
        match ActionPath::parse(rest.unwrap()) {
            Ok(path) => Ok(Some(EnabledEntry::Action(path))),
            Err(error) => Err(error),
        }
    } else if same_text(scope, "#") {
        Ok(None)
    } else if rest.is_none() {
        let mut message = String::from_str("invalid entry '");
        message.append(line);
        message.append("'");
        Err(Error::DynamicMessage(message))
    } else {
        let mut message = String::from_str("invalid scope '");
        message.append(scope);
        message.append("'");
        Err(Error::DynamicMessage(message))
    }
}

} // verus!
