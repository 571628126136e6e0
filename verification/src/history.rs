use vstd::prelude::*;
use crate::text::{all_ws, chars_of, is_whitespace, string_from_range, starts_with_seq};
use crate::seqs::{first_where, lemma_first_where};

verus! {

/// Command history used for inline suggestions (most recent last).
#[derive(Debug, Clone)]
pub struct CommandHistory {
    commands: Vec<String>,
    max_size: usize,
}

/// The history after `add_command(c)`: blank commands and repeats of the
/// last command are ignored; otherwise `c` is appended and, past `max`,
/// the oldest command is dropped.
pub open spec fn history_add(h: Seq<Seq<char>>, max: nat, c: Seq<char>) -> Seq<Seq<char>> {
    if all_ws(c) {
        h
    } else if h.len() > 0 && h.last() == c {
        h
    } else if h.len() + 1 > max {
        h.push(c).drop_first()
    } else {
        h.push(c)
    }
}

/// `p` is a proper prefix of `c` (a prefix strictly shorter than `c`).
pub open spec fn proper_prefix(p: Seq<char>, c: Seq<char>) -> bool {
    starts_with_seq(c, p) && c.len() > p.len()
}

/// Index of the most recent command of which `p` is a proper prefix.
pub open spec fn latest_match(h: Seq<Seq<char>>, p: Seq<char>) -> Option<int>
    decreases h.len(),
{
    if h.len() == 0 {
        None
    } else if proper_prefix(p, h.last()) {
        Some(h.len() - 1)
    } else {
        latest_match(h.drop_last(), p)
    }
}

/// What `find_suggestion(p)` returns: the rest of the most recent command that
/// `p` properly prefixes, or nothing for an empty `p`.
pub open spec fn suggestion_for(h: Seq<Seq<char>>, p: Seq<char>) -> Option<Seq<char>> {
    if p.len() == 0 {
        None
    } else {
        match latest_match(h, p) {
            Some(i) => Some(h[i].skip(p.len() as int)),
            None => None,
        }
    }
}

pub proof fn lemma_latest_match(h: Seq<Seq<char>>, p: Seq<char>, k: int)
    requires
        0 <= k <= h.len(),
        forall|j: int| k <= j < h.len() ==> !proper_prefix(p, #[trigger] h[j]),
    ensures
        latest_match(h, p) == latest_match(h.take(k), p),
    decreases h.len() - k,
{
    if k < h.len() {
        assert(!proper_prefix(p, h.last()));
        lemma_latest_match(h.drop_last(), p, k);
        assert(h.drop_last().take(k) =~= h.take(k));
    } else {
        assert(h.take(k) =~= h);
    }
}

/// The character is a semicolon.
pub open spec fn semicolon() -> spec_fn(char) -> bool {
    |c: char| c == ';'
}

/// An ASCII digit.
pub open spec fn ascii_digit(c: char) -> bool {
    0x30 <= (c as u32) <= 0x39
}

/// The command a line of a shell history file holds: nothing for a bash timestamp
/// (`#` and digits); in zsh's extended format (`: <start>:<elapsed>;<command>`), what
/// follows the first `;`; any other line is the command itself.
pub open spec fn history_line_command(line: Seq<char>) -> Seq<char> {
    if line.len() > 1 && line[0] == '#' && (forall|i: int| 1 <= i < line.len() ==> ascii_digit(#[trigger] line[i])) {
        Seq::empty()
    } else if line.len() > 0 && line[0] == ':' {
        match first_where(line, semicolon()) {
            Some(i) => line.skip(i + 1),
            None => line,
        }
    } else {
        line
    }
}

/// The history `h` after the commands of the history file lines `lines` are added,
/// first line first (see `history_add`).
pub open spec fn history_after(h: Seq<Seq<char>>, max: nat, lines: Seq<Seq<char>>) -> Seq<Seq<char>>
    decreases lines.len(),
{
    if lines.len() == 0 {
        h
    } else {
        history_add(history_after(h, max, lines.drop_last()), max, history_line_command(lines.last()))
    }
}

/// The command of a history file line (see `history_line_command`).
pub fn parse_history_line(line: &str) -> (r: String)
    ensures
        r@ == history_line_command(line@),
{
    let v = chars_of(line);
    let n = v.len();
    if n > 1 && v[0] == '#' {
        let mut i: usize = 1;
        while i < n && (v[i] as u32) >= 0x30 && (v[i] as u32) <= 0x39
            invariant
                1 <= i <= n,
                n == v@.len(),
                forall|k: int| 1 <= k < i ==> ascii_digit(#[trigger] v@[k]),
            decreases n - i,
        {
            i += 1;
        }
        if i == n {
            return String::new();
        }
        assert(!ascii_digit(v@[i as int]));
    }
    if n > 0 && v[0] == ':' {
        let ghost p = semicolon();
        proof {
            lemma_first_where(v@, p);
        }
        let mut j: usize = 0;
        while j < n
            invariant
                j <= n,
                n == v@.len(),
                v@ == line@,
                n > 0,
                v@[0] == ':',
                p == semicolon(),
                forall|k: int| 0 <= k < j ==> !p(#[trigger] v@[k]),
                match first_where(v@, p) {
                    Some(q) => 0 <= q < v@.len() && p(v@[q]) && forall|k: int| 0 <= k < q ==> !p(#[trigger] v@[k]),
                    None => forall|k: int| 0 <= k < v@.len() ==> !p(#[trigger] v@[k]),
                },
            decreases n - j,
        {
            if v[j] == ';' {
                assert(p(v@[j as int]));
                assert(first_where(v@, p) == Some(j as int)) by {
                    match first_where(v@, p) {
                        Some(q) => {
                            if q < j {
                                assert(!p(v@[q]));
                            } else if q > j {
                                assert(!p(v@[j as int]));
                            }
                        },
                        None => {
                            assert(!p(v@[j as int]));
                        },
                    }
                }
                let r = string_from_range(&v, j + 1, n);
                assert(v@.subrange(j + 1, n as int) =~= v@.skip(j + 1));
                return r;
            }
            j += 1;
        }
        proof {
            match first_where(v@, p) {
                Some(q) => {
                    assert(!p(v@[q]));
                },
                None => {},
            }
        }
    }
    let r = string_from_range(&v, 0, n);
    assert(v@.subrange(0, n as int) =~= v@);
    r
}

impl View for CommandHistory {
    type V = Seq<Seq<char>>;

    closed spec fn view(&self) -> Seq<Seq<char>> {
        self.commands@.map_values(|s: String| s@)
    }
}

impl CommandHistory {
    /// Largest number of commands kept.
    pub closed spec fn capacity(&self) -> nat {
        self.max_size as nat
    }

    pub fn new(max_size: usize) -> (r: Self)
        ensures
            r@ == Seq::<Seq<char>>::empty(),
            r.capacity() == max_size,
    {
        CommandHistory { commands: Vec::new(), max_size }
    }

    /// Records a command (see `history_add`).
    pub fn add_command(&mut self, command: String)
        ensures
            final(self)@ == history_add(old(self)@, old(self).capacity(), command@),
            final(self).capacity() == old(self).capacity(),
    {
        let cv = chars_of(command.as_str());
        let mut i: usize = 0;
        while i < cv.len() && is_whitespace(cv[i])
            invariant
                i <= cv@.len(),
                forall|j: int| 0 <= j < i ==> crate::text::is_ws(#[trigger] cv@[j]),
            decreases cv@.len() - i,
        {
            i += 1;
        }
        if i == cv.len() {
            return;
        }
        assert(!crate::text::is_ws(cv@[i as int]));
        let n = self.commands.len();
        if n > 0 {
            if self.commands[n - 1] == command {
                assert(self@.last() == self.commands@[n - 1]@);
                return;
            }
        }
        let ghost old_cmds = self.commands@;
        self.commands.push(command);
        assert(self.commands@.map_values(|s: String| s@) =~= old_cmds.map_values(|s: String| s@).push(command@));
        if self.commands.len() > self.max_size {
            let ghost before = self.commands@;
            self.commands.remove(0);
            assert(self.commands@.map_values(|s: String| s@) =~= before.map_values(|s: String| s@).drop_first());
        }
    }

    /// Adds the commands of shell history file lines, first line first (see
    /// `history_after`).
    pub fn add_history_lines(&mut self, lines: &Vec<String>)
        ensures
            final(self)@ == history_after(old(self)@, old(self).capacity(), lines@.map_values(|s: String| s@)),
            final(self).capacity() == old(self).capacity(),
    {
        let ghost h0 = self@;
        let ghost all = lines@.map_values(|s: String| s@);
        let mut i: usize = 0;
        while i < lines.len()
            invariant
                i <= lines@.len(),
                all == lines@.map_values(|s: String| s@),
                self.capacity() == old(self).capacity(),
                h0 == old(self)@,
                self@ == history_after(h0, self.capacity(), all.take(i as int)),
            decreases lines@.len() - i,
        {
            let cmd = parse_history_line(lines[i].as_str());
            self.add_command(cmd);
            proof {
                assert(all.take(i + 1).drop_last() =~= all.take(i as int));
                assert(all.take(i + 1).last() == lines@[i as int]@);
            }
            i += 1;
        }
        assert(all.take(lines@.len() as int) =~= all);
    }

    /// A history of at most `max_size` commands, filled from shell history file lines.
    pub fn from_shell_history(max_size: usize, lines: &Vec<String>) -> (r: Self)
        ensures
            r@ == history_after(Seq::empty(), max_size as nat, lines@.map_values(|s: String| s@)),
            r.capacity() == max_size,
    {
        let mut h = CommandHistory::new(max_size);
        h.add_history_lines(lines);
        h
    }

    /// Rest of the most recent command starting with `prefix` (see `suggestion_for`).
    pub fn find_suggestion(&self, prefix: &str) -> (r: Option<String>)
        ensures
            r matches Some(s) ==> suggestion_for(self@, prefix@) == Some(s@),
            r is None ==> suggestion_for(self@, prefix@) is None,
    {
        let pv = chars_of(prefix);
        if pv.len() == 0 {
            return None;
        }
        let mut i = self.commands.len();
        while i > 0
            invariant
                i <= self.commands@.len(),
                pv@ == prefix@,
                pv@.len() > 0,
                forall|j: int| i <= j < self@.len() ==> !proper_prefix(pv@, #[trigger] self@[j]),
            decreases i,
        {
            let cv = chars_of(self.commands[i - 1].as_str());
            assert(cv@ == self@[i - 1]);
            if cv.len() > pv.len() && crate::text::matches_at(&cv, &pv, 0) {
                proof {
                    lemma_latest_match(self@, pv@, i as int);
                    assert(self@.take(i as int).last() == self@[i - 1]);
                }
                return Some(string_from_range(&cv, pv.len(), cv.len()));
            }
            i -= 1;
        }
        proof {
            lemma_latest_match(self@, pv@, 0);
        }
        None
    }

    /// All recorded commands, oldest first.
    pub fn get_commands(&self) -> (r: &[String])
        ensures
            r@.map_values(|s: String| s@) == self@,
    {
        self.commands.as_slice()
    }

    pub fn clear(&mut self)
        ensures
            final(self)@ == Seq::<Seq<char>>::empty(),
            final(self).capacity() == old(self).capacity(),
    {
        self.commands.clear();
        assert(self.commands@.map_values(|s: String| s@) =~= Seq::<Seq<char>>::empty());
    }

    pub fn len(&self) -> (r: usize)
        ensures
            r == self@.len(),
    {
        self.commands.len()
    }

    pub fn is_empty(&self) -> (r: bool)
        ensures
            r == (self@.len() == 0),
    {
        self.commands.len() == 0
    }
}

} // verus!
