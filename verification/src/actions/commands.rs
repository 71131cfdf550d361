//! The shell command lines of an action.

use crate::utils::text::{lines, lines_of};
use vstd::prelude::*;
use vstd::string::StringExecFns;

verus! {

/// The texts of a list of strings, in order.
pub open spec fn texts_of(strings: Seq<String>) -> Seq<Seq<char>> {
    Seq::new(strings.len(), |i: int| strings[i]@)
}

/// The command lines of an action, in the order they run.
#[derive(Debug)]
pub struct Commands {
    commands: Vec<String>,
}

/// The lines of `lines` that are not empty, in order.
pub open spec fn non_empty(lines: Seq<Seq<char>>) -> Seq<Seq<char>>
    decreases lines.len(),
{
    if lines.len() == 0 {
        Seq::empty()
    } else if lines.last().len() == 0 {
        non_empty(lines.drop_last())
    } else {
        non_empty(lines.drop_last()).push(lines.last())
    }
}

/// The text of a pipeline: each command followed by a line feed.
pub open spec fn pipeline_text(commands: Seq<Seq<char>>) -> Seq<char>
    decreases commands.len(),
{
    if commands.len() == 0 {
        Seq::empty()
    } else {
        pipeline_text(commands.drop_last()) + commands.last() + "\n"@
    }
}

impl View for Commands {
    type V = Seq<Seq<char>>;

    closed spec fn view(&self) -> Seq<Seq<char>> {
        texts_of(self.commands@)
    }
}

impl Clone for Commands {
    fn clone(&self) -> (copy: Commands)
        ensures
            copy@ == self@,
    {
        let mut commands: Vec<String> = Vec::new();
        let mut i: usize = 0;
        while i < self.commands.len()
            invariant
                i <= self.commands.len(),
                commands.len() == i,
                forall|j: int| 0 <= j < i ==> commands[j]@ == self.commands[j]@,
            decreases self.commands.len() - i,
        {
            commands.push(self.commands[i].clone());
            i += 1;
        }
        assert(texts_of(commands@) =~= texts_of(self.commands@));
        Commands { commands }
    }
}

impl Commands {
    /// The pipeline of the given command lines.
    pub fn new(commands: Vec<String>) -> (made: Commands)
        ensures
            made@ == texts_of(commands@),
    {
        Commands { commands }
    }

    /// The command lines written in `value`, one on each line that is not
    /// empty.
    pub fn from(value: String) -> (made: Commands)
        ensures
            made@ == non_empty(lines_of(value@)),
    {
        let all = lines(value.as_str());
        let mut commands: Vec<String> = Vec::new();
        let mut i: usize = 0;
        let ghost written = lines_of(value@);
        assert(written.take(0) =~= Seq::<Seq<char>>::empty());
        while i < all.len()
            invariant
                i <= all.len(),
                all.len() == written.len(),
                forall|j: int| 0 <= j < all.len() ==> all[j]@ == #[trigger] written[j],
                texts_of(commands@) == non_empty(written.take(i as int)),
            decreases all.len() - i,
        {
            let line = all[i];
            assert(written.take(i + 1).drop_last() =~= written.take(i as int));
            assert(written.take(i + 1).last() == written[i as int]);
            if line.unicode_len() != 0 {
                commands.push(String::from_str(line));
                assert(texts_of(commands@) =~= non_empty(written.take(i + 1)));
            }
            i += 1;
        }
        assert(written.take(i as int) =~= written);
        Commands { commands }
    }

    /// Whether there is more than one command line.
    pub fn has_multiple_commmands(&self) -> (several: bool)
        ensures
            several == (self@.len() > 1),
    {
        self.commands.len() > 1
    }

    /// How many command lines there are.
    pub fn len(&self) -> (count: usize)
        ensures
            count == self@.len(),
    {
        self.commands.len()
    }

    /// The command line at `index`.
    pub fn get(&self, index: usize) -> (command: &str)
        requires
            index < self@.len(),
        ensures
            command@ == self@[index as int],
    {
        self.commands[index].as_str()
    }

    /// The pipeline as text: each command on a line of its own.
    pub fn to_string(&self) -> (text: String)
        ensures
            text@ == pipeline_text(self@),
    {
        let mut text = String::new();
        let mut i: usize = 0;
        assert(self@.take(0) =~= Seq::<Seq<char>>::empty());
        while i < self.commands.len()
            invariant
                i <= self.commands.len(),
                text@ == pipeline_text(self@.take(i as int)),
            decreases self.commands.len() - i,
        {
            assert(self@.take(i + 1).drop_last() =~= self@.take(i as int));
            assert(self@.take(i + 1).last() == self.commands[i as int]@);
            text.append(self.commands[i].as_str());
            text.append("\n");
            i += 1;
        }
        assert(self@.take(i as int) =~= self@);
        text
    }
}

} // verus!
