//! Shell-completion support: the shells the front-end knows, the line each
//! one sources, and where each one's configuration file lives.
//!
//! Reading `SHELL` from the environment and touching configuration files is
//! the front-end's business; this module holds the decisions. The shell is
//! recognized from the basename of the `SHELL` value, handed in as the bytes
//! the environment held.

use vstd::prelude::*;

use crate::path::{append_bytes, slice_range, SLASH};
use vstd::string::StringExecFns;

verus! {

/// The shells completions can be installed for.
#[derive(Clone, Copy, Debug, PartialEq, Eq, Structural)]
pub enum Shell {
    Bash,
    Zsh,
    Fish,
    Elvish,
    PowerShell,
}

/// The bytes after the last separator: how a shell binary's name is read
/// out of the `SHELL` environment value.
pub open spec fn basename_of(s: Seq<u8>) -> Seq<u8>
    decreases s.len(),
{
    if s.len() == 0 {
        s
    } else if s.last() == SLASH {
        Seq::empty()
    } else {
        basename_of(s.drop_last()).push(s.last())
    }
}

/// The bytes of `"bash"`.
pub open spec fn bash_name() -> Seq<u8> {
    seq![98u8, 97u8, 115u8, 104u8]
}

/// The bytes of `"zsh"`.
pub open spec fn zsh_name() -> Seq<u8> {
    seq![122u8, 115u8, 104u8]
}

/// The bytes of `"fish"`.
pub open spec fn fish_name() -> Seq<u8> {
    seq![102u8, 105u8, 115u8, 104u8]
}

/// The bytes of `"elvish"`.
pub open spec fn elvish_name() -> Seq<u8> {
    seq![101u8, 108u8, 118u8, 105u8, 115u8, 104u8]
}

/// The bytes of `"pwsh"`.
pub open spec fn pwsh_name() -> Seq<u8> {
    seq![112u8, 119u8, 115u8, 104u8]
}

/// The bytes of `"powershell"`.
pub open spec fn powershell_name() -> Seq<u8> {
    seq![112u8, 111u8, 119u8, 101u8, 114u8, 115u8, 104u8, 101u8, 108u8, 108u8]
}

/// Which shell a binary name denotes. PowerShell answers to two names.
pub open spec fn shell_of_name(n: Seq<u8>) -> Option<Shell> {
    if n == bash_name() {
        Some(Shell::Bash)
    } else if n == zsh_name() {
        Some(Shell::Zsh)
    } else if n == fish_name() {
        Some(Shell::Fish)
    } else if n == elvish_name() {
        Some(Shell::Elvish)
    } else if n == pwsh_name() || n == powershell_name() {
        Some(Shell::PowerShell)
    } else {
        None
    }
}

/// When nothing from `start` on is a separator, and `start` sits right
/// after one (or at the front), the basename is the suffix from `start`.
proof fn lemma_basename_skip(s: Seq<u8>, start: int)
    requires
        0 <= start <= s.len(),
        start > 0 ==> s[start - 1] == SLASH,
        forall|j: int| start <= j < s.len() ==> s[j] != SLASH,
    ensures
        basename_of(s) == s.skip(start),
    decreases s.len(),
{
    if s.len() == 0 {
        assert(basename_of(s) =~= s.skip(0));
    } else if s.last() == SLASH {
        assert(start == s.len());
        assert(basename_of(s) =~= s.skip(start));
    } else {
        assert(start < s.len() || start == 0 || s[start - 1] == SLASH);
        if start == s.len() {
            assert(s[start - 1] == s.last());
            assert(false);
        }
        lemma_basename_skip(s.drop_last(), start);
        assert(basename_of(s) == s.drop_last().skip(start).push(s.last()));
        assert(s.drop_last().skip(start).push(s.last()) =~= s.skip(start));
    }
}

/// `n` occurs in `h` as a contiguous run of bytes.
pub open spec fn contains_seq(h: Seq<u8>, n: Seq<u8>) -> bool {
    exists|i: int|
        0 <= i && i + n.len() <= h.len() && (#[trigger] h.subrange(i, i + n.len() as int)) == n
}

/// Whether `line` starts at position `i` of `contents`.
fn matches_at(contents: &Vec<u8>, line: &Vec<u8>, i: usize) -> (r: bool)
    requires
        i + line@.len() <= contents@.len(),
    ensures
        r == (contents@.subrange(i as int, i as int + line@.len() as int) == line@),
{
    let clen = contents.len();
    let mut k: usize = 0;
    while k < line.len()
        invariant
            clen == contents@.len(),
            i + line@.len() <= clen,
            k <= line@.len(),
            forall|j: int| 0 <= j < k ==> contents@[i + j] == line@[j],
        decreases line@.len() - k,
    {
        if contents[i + k] != line[k] {
            proof {
                assert(contents@.subrange(i as int, i as int + line@.len() as int)[k as int]
                    == contents@[i + k]);
            }
            return false;
        }
        k += 1;
    }
    proof {
        assert(contents@.subrange(i as int, i as int + line@.len() as int) =~= line@);
    }
    true
}

/// Whether the completion line already stands somewhere in a configuration
/// file's contents: a byte-substring search, as the front-end needs before
/// appending the line or when removing it.
pub fn completion_installed(contents: &Vec<u8>, line: &Vec<u8>) -> (r: bool)
    ensures
        r == contains_seq(contents@, line@),
{
    if line.len() == 0 {
        proof {
            assert(contents@.subrange(0, 0 + line@.len() as int) =~= line@);
        }
        return true;
    }
    if line.len() > contents.len() {
        return false;
    }
    let mut i: usize = 0;
    while i < contents.len()
        invariant
            0 < line@.len() <= contents@.len(),
            i <= contents@.len(),
            forall|j: int|
                0 <= j < i && j + line@.len() <= contents@.len() ==> (
                #[trigger] contents@.subrange(j, j + line@.len() as int)) != line@,
        decreases contents@.len() - i,
    {
        if line.len() <= contents.len() - i {
            if matches_at(contents, line, i) {
                proof {
                    assert(contains_seq(contents@, line@)) by {
                        assert(contents@.subrange(i as int, i as int + line@.len() as int)
                            == line@);
                    }
                }
                return true;
            }
        }
        i += 1;
    }
    proof {
        assert(!contains_seq(contents@, line@)) by {
            if contains_seq(contents@, line@) {
                let i0 = choose|i0: int|
                    0 <= i0 && i0 + line@.len() <= contents@.len() && (#[trigger] contents@.subrange(
                        i0,
                        i0 + line@.len() as int,
                    )) == line@;
                assert(i0 < contents@.len());
                assert(false);
            }
        }
    }
    false
}

/// The line-feed byte, `\n`.
pub const LINE_FEED: u8 = 10;

/// The carriage-return byte, `\r`.
pub const CARRIAGE_RETURN: u8 = 13;

/// Index of the first line feed, or the length when there is none.
pub open spec fn first_line_end(h: Seq<u8>) -> int
    decreases h.len(),
{
    if h.len() == 0 {
        0
    } else if h[0] == LINE_FEED {
        0
    } else {
        1 + first_line_end(h.drop_first())
    }
}

/// `first_line_end` points at the first line feed: nothing before it is
/// one, and it is one itself unless the string holds none at all.
pub proof fn lemma_first_line_end(h: Seq<u8>)
    ensures
        0 <= first_line_end(h) <= h.len(),
        first_line_end(h) < h.len() ==> h[first_line_end(h)] == LINE_FEED,
        forall|j: int| 0 <= j < first_line_end(h) ==> h[j] != LINE_FEED,
    decreases h.len(),
{
    if h.len() == 0 {
    } else if h[0] == LINE_FEED {
    } else {
        lemma_first_line_end(h.drop_first());
        assert(forall|j: int|
            1 <= j < first_line_end(h) ==> h[j] == h.drop_first()[j - 1]);
    }
}

/// The position of the first line feed is determined by what stands before
/// it: the converse of `lemma_first_line_end`.
proof fn lemma_first_line_end_at(s: Seq<u8>, k: int)
    requires
        0 <= k <= s.len(),
        forall|j: int| 0 <= j < k ==> s[j] != LINE_FEED,
        k < s.len() ==> s[k] == LINE_FEED,
    ensures
        first_line_end(s) == k,
    decreases k,
{
    if k == 0 {
    } else {
        assert(s[0] != LINE_FEED);
        assert(forall|j: int| 0 <= j < k - 1 ==> s.drop_first()[j] == s[j + 1]);
        if k - 1 < s.drop_first().len() {
            assert(s.drop_first()[k - 1] == s[k]);
        }
        lemma_first_line_end_at(s.drop_first(), k - 1);
    }
}

/// One carriage return trimmed from the end, as the line ending `\r\n`
/// leaves on a line.
pub open spec fn trim_cr(l: Seq<u8>) -> Seq<u8> {
    if l.len() > 0 && l[l.len() - 1] == CARRIAGE_RETURN {
        l.drop_last()
    } else {
        l
    }
}

/// The lines of a byte string: split at line feeds, a carriage return
/// right before a line feed trimmed, the final line ending optional — a
/// bare final line is taken whole.
pub open spec fn lines_of(h: Seq<u8>) -> Seq<Seq<u8>>
    decreases h.len(),
{
    if h.len() == 0 {
        Seq::empty()
    } else {
        let e = first_line_end(h);
        if 0 <= e && e < h.len() {
            seq![trim_cr(h.take(e))] + lines_of(h.skip(e + 1))
        } else {
            seq![h]
        }
    }
}

/// The lines in which the needle does not occur.
pub open spec fn kept_lines(ls: Seq<Seq<u8>>, n: Seq<u8>) -> Seq<Seq<u8>>
    decreases ls.len(),
{
    if ls.len() == 0 {
        Seq::empty()
    } else if contains_seq(ls[0], n) {
        kept_lines(ls.drop_first(), n)
    } else {
        seq![ls[0]] + kept_lines(ls.drop_first(), n)
    }
}

/// The lines, each closed with a line feed.
pub open spec fn joined_lines(ls: Seq<Seq<u8>>) -> Seq<u8>
    decreases ls.len(),
{
    if ls.len() == 0 {
        Seq::empty()
    } else {
        ls[0] + seq![LINE_FEED] + joined_lines(ls.drop_first())
    }
}

/// A nonempty list of lines joins to a nonempty string.
proof fn lemma_joined_lines_nonempty(ls: Seq<Seq<u8>>)
    requires
        ls.len() > 0,
    ensures
        joined_lines(ls).len() > 0,
{
    assert(joined_lines(ls) == ls[0] + seq![LINE_FEED] + joined_lines(ls.drop_first()));
}

/// Drop every line in which the needle occurs; each kept line comes out
/// closed with a line feed, and a file left without any line is a single
/// line feed — what uninstalling a completion line writes back.
pub fn remove_matching_lines(contents: &Vec<u8>, needle: &Vec<u8>) -> (r: Vec<u8>)
    ensures
        kept_lines(lines_of(contents@), needle@).len() == 0 ==> r@ == seq![LINE_FEED],
        kept_lines(lines_of(contents@), needle@).len() > 0 ==> r@ == joined_lines(
            kept_lines(lines_of(contents@), needle@),
        ),
{
    let ghost target = joined_lines(kept_lines(lines_of(contents@), needle@));
    let mut out: Vec<u8> = Vec::new();
    let mut pos: usize = 0;
    proof {
        assert(contents@.skip(0) =~= contents@);
        assert(out@ + joined_lines(kept_lines(lines_of(contents@), needle@)) =~= target);
    }
    while pos < contents.len()
        invariant
            pos <= contents@.len(),
            target == joined_lines(kept_lines(lines_of(contents@), needle@)),
            target == out@ + joined_lines(
                kept_lines(lines_of(contents@.skip(pos as int)), needle@),
            ),
        decreases contents@.len() - pos,
    {
        let ghost rem = contents@.skip(pos as int);
        let mut e: usize = pos;
        while e < contents.len() && contents[e] != LINE_FEED
            invariant
                pos <= e <= contents@.len(),
                forall|j: int| pos <= j < e ==> contents@[j] != LINE_FEED,
            decreases contents@.len() - e,
        {
            e += 1;
        }
        proof {
            assert(rem.len() == contents@.len() - pos);
            assert(forall|j: int| 0 <= j < e - pos ==> rem[j] == contents@[j + pos]);
            if e < contents@.len() {
                assert(rem[e - pos] == contents@[e as int]);
            }
            lemma_first_line_end_at(rem, e - pos);
        }
        let newline_present = e < contents.len();
        let mut line = slice_range(contents, pos, e);
        if newline_present && line.len() > 0 && line[line.len() - 1] == CARRIAGE_RETURN {
            line.pop();
        }
        proof {
            assert(contents@.subrange(pos as int, e as int) =~= rem.take(e - pos));
            if newline_present {
                assert(line@ =~= trim_cr(rem.take(e - pos)));
            } else {
                assert(e == contents@.len());
                assert(line@ =~= rem);
            }
        }
        let ghost old_out = out@;
        if !completion_installed(&line, needle) {
            append_bytes(&mut out, &line);
            out.push(LINE_FEED);
            proof {
                assert(out@ =~= old_out + (line@ + seq![LINE_FEED]));
            }
        }
        proof {
            if newline_present {
                let rest = contents@.skip(e + 1);
                assert(rem.skip(e - pos + 1) =~= rest);
                assert(lines_of(rem) == seq![line@] + lines_of(rest));
                let tail_lines = lines_of(rest);
                assert((seq![line@] + tail_lines).drop_first() =~= tail_lines);
                assert((seq![line@] + tail_lines)[0] == line@);
                if contains_seq(line@, needle@) {
                    assert(kept_lines(lines_of(rem), needle@) == kept_lines(
                        tail_lines,
                        needle@,
                    ));
                } else {
                    assert(kept_lines(lines_of(rem), needle@) == seq![line@] + kept_lines(
                        tail_lines,
                        needle@,
                    ));
                    let ks = kept_lines(tail_lines, needle@);
                    assert((seq![line@] + ks).drop_first() =~= ks);
                    assert((seq![line@] + ks)[0] == line@);
                    assert(joined_lines(seq![line@] + ks) == line@ + seq![LINE_FEED]
                        + joined_lines(ks));
                    assert(old_out + (line@ + seq![LINE_FEED] + joined_lines(ks)) =~= (old_out
                        + (line@ + seq![LINE_FEED])) + joined_lines(ks));
                }
            } else {
                assert(lines_of(rem) == seq![rem]);
                assert(seq![rem].drop_first() =~= Seq::<Seq<u8>>::empty());
                assert(contents@.skip(contents@.len() as int) =~= Seq::<u8>::empty());
                assert(lines_of(Seq::<u8>::empty()) == Seq::<Seq<u8>>::empty());
                if contains_seq(line@, needle@) {
                    assert(lines_of(rem)[0] == rem);
                    assert(kept_lines(lines_of(rem), needle@) == kept_lines(
                        lines_of(rem).drop_first(),
                        needle@,
                    ));
                    assert(lines_of(rem).drop_first() =~= Seq::<Seq<u8>>::empty());
                    assert(kept_lines(Seq::<Seq<u8>>::empty(), needle@)
                        == Seq::<Seq<u8>>::empty());
                } else {
                    assert(kept_lines(lines_of(rem), needle@) == seq![rem] + kept_lines(
                        Seq::<Seq<u8>>::empty(),
                        needle@,
                    ));
                    assert(kept_lines(lines_of(rem), needle@) =~= seq![rem]);
                    assert(joined_lines(seq![rem]) == rem + seq![LINE_FEED] + joined_lines(
                        seq![rem].drop_first(),
                    ));
                    assert(old_out + (rem + seq![LINE_FEED] + joined_lines(
                        Seq::<Seq<u8>>::empty(),
                    )) =~= old_out + (rem + seq![LINE_FEED]));
                }
            }
        }
        pos = if newline_present {
            e + 1
        } else {
            e
        };
    }
    proof {
        assert(contents@.skip(pos as int) =~= Seq::<u8>::empty());
        assert(lines_of(Seq::<u8>::empty()) == Seq::<Seq<u8>>::empty());
        assert(out@ + Seq::<u8>::empty() =~= out@);
        assert(target == out@);
    }
    if out.len() == 0 {
        proof {
            if kept_lines(lines_of(contents@), needle@).len() > 0 {
                lemma_joined_lines_nonempty(kept_lines(lines_of(contents@), needle@));
            }
        }
        out.push(LINE_FEED);
    } else {
        proof {
            assert(kept_lines(lines_of(contents@), needle@).len() > 0) by {
                if kept_lines(lines_of(contents@), needle@).len() == 0 {
                    assert(target =~= Seq::<u8>::empty());
                }
            }
        }
    }
    out
}

impl Shell {
    /// Recognize a shell from the bytes of the `SHELL` environment value:
    /// the basename (what follows the last `/`) is matched against the
    /// known shell names.
    pub fn detect_from(shell_path: &Vec<u8>) -> (r: Option<Shell>)
        ensures
            r == shell_of_name(basename_of(shell_path@)),
    {
        let mut start: usize = 0;
        let mut i: usize = 0;
        while i < shell_path.len()
            invariant
                0 <= start <= i <= shell_path@.len(),
                start > 0 ==> shell_path@[start - 1] == SLASH,
                forall|j: int| start <= j < i ==> shell_path@[j] != SLASH,
            decreases shell_path@.len() - i,
        {
            if shell_path[i] == SLASH {
                start = i + 1;
            }
            i += 1;
        }
        proof {
            lemma_basename_skip(shell_path@, start as int);
        }
        let ghost name = shell_path@.skip(start as int);
        let n = shell_path.len() - start;
        if n == 4 && shell_path[start] == 98 && shell_path[start + 1] == 97 && shell_path[start
            + 2] == 115 && shell_path[start + 3] == 104 {
            proof {
                assert(name =~= bash_name());
            }
            Some(Shell::Bash)
        } else if n == 3 && shell_path[start] == 122 && shell_path[start + 1] == 115
            && shell_path[start + 2] == 104 {
            proof {
                assert(name =~= zsh_name());
            }
            Some(Shell::Zsh)
        } else if n == 4 && shell_path[start] == 102 && shell_path[start + 1] == 105
            && shell_path[start + 2] == 115 && shell_path[start + 3] == 104 {
            proof {
                assert(name =~= fish_name());
            }
            Some(Shell::Fish)
        } else if n == 6 && shell_path[start] == 101 && shell_path[start + 1] == 108
            && shell_path[start + 2] == 118 && shell_path[start + 3] == 105 && shell_path[start
            + 4] == 115 && shell_path[start + 5] == 104 {
            proof {
                assert(name =~= elvish_name());
            }
            Some(Shell::Elvish)
        } else if n == 4 && shell_path[start] == 112 && shell_path[start + 1] == 119
            && shell_path[start + 2] == 115 && shell_path[start + 3] == 104 {
            proof {
                assert(name =~= pwsh_name());
            }
            Some(Shell::PowerShell)
        } else if n == 10 && shell_path[start] == 112 && shell_path[start + 1] == 111
            && shell_path[start + 2] == 119 && shell_path[start + 3] == 101 && shell_path[start
            + 4] == 114 && shell_path[start + 5] == 115 && shell_path[start + 6] == 104
            && shell_path[start + 7] == 101 && shell_path[start + 8] == 108 && shell_path[start
            + 9] == 108 {
            proof {
                assert(name =~= powershell_name());
            }
            Some(Shell::PowerShell)
        } else {
            proof {
                if name == bash_name() {
                    assert(name.len() == 4 && name[0] == 98 && name[1] == 97 && name[2] == 115
                        && name[3] == 104);
                }
                if name == zsh_name() {
                    assert(name.len() == 3 && name[0] == 122 && name[1] == 115 && name[2] == 104);
                }
                if name == fish_name() {
                    assert(name.len() == 4 && name[0] == 102 && name[1] == 105 && name[2] == 115
                        && name[3] == 104);
                }
                if name == elvish_name() {
                    assert(name.len() == 6 && name[0] == 101 && name[1] == 108 && name[2] == 118
                        && name[3] == 105 && name[4] == 115 && name[5] == 104);
                }
                if name == pwsh_name() {
                    assert(name.len() == 4 && name[0] == 112 && name[1] == 119 && name[2] == 115
                        && name[3] == 104);
                }
                if name == powershell_name() {
                    assert(name.len() == 10 && name[0] == 112 && name[1] == 111 && name[2] == 119
                        && name[3] == 101 && name[4] == 114 && name[5] == 115 && name[6] == 104
                        && name[7] == 101 && name[8] == 108 && name[9] == 108);
                }
            }
            None
        }
    }

    /// The short name of the shell, as shown to the user.
    pub open spec fn name_spec(self) -> Seq<char> {
        match self {
            Shell::Bash => "bash"@,
            Shell::Zsh => "zsh"@,
            Shell::Fish => "fish"@,
            Shell::Elvish => "elvish"@,
            Shell::PowerShell => "powershell"@,
        }
    }

    /// The short name of the shell.
    pub fn name(&self) -> (r: &'static str)
        ensures
            r@ == self.name_spec(),
    {
        match self {
            Shell::Bash => "bash",
            Shell::Zsh => "zsh",
            Shell::Fish => "fish",
            Shell::Elvish => "elvish",
            Shell::PowerShell => "powershell",
        }
    }

    /// The line a user adds to the shell's configuration to enable
    /// completions.
    pub open spec fn completion_line_spec(self) -> Seq<char> {
        match self {
            Shell::Bash => "source <(COMPLETE=bash agentfs)"@,
            Shell::Zsh => "source <(COMPLETE=zsh agentfs)"@,
            Shell::Fish => "COMPLETE=fish agentfs | source"@,
            Shell::Elvish => "eval (COMPLETE=elvish agentfs | slurp)"@,
            Shell::PowerShell => "$env:COMPLETE = \"powershell\"; agentfs | Out-String | Invoke-Expression; Remove-Item Env:\\COMPLETE"@,
        }
    }

    /// The completion source line for this shell.
    pub fn completion_line(&self) -> (r: &'static str)
        ensures
            r@ == self.completion_line_spec(),
    {
        match self {
            Shell::Bash => "source <(COMPLETE=bash agentfs)",
            Shell::Zsh => "source <(COMPLETE=zsh agentfs)",
            Shell::Fish => "COMPLETE=fish agentfs | source",
            Shell::Elvish => "eval (COMPLETE=elvish agentfs | slurp)",
            Shell::PowerShell => "$env:COMPLETE = \"powershell\"; agentfs | Out-String | Invoke-Expression; Remove-Item Env:\\COMPLETE",
        }
    }

    /// Where this shell's configuration file lives, given the user's home
    /// directory and configuration directory.
    pub open spec fn config_path_spec(self, home: Seq<char>, config: Seq<char>) -> Seq<char> {
        match self {
            Shell::Bash => home + "/.bashrc"@,
            Shell::Zsh => home + "/.zshrc"@,
            Shell::Fish => config + "/fish/config.fish"@,
            Shell::Elvish => config + "/elvish/rc.elv"@,
            Shell::PowerShell => config + "/powershell/Microsoft.PowerShell_profile.ps1"@,
        }
    }

    /// The path of this shell's configuration file. Bash and Zsh configure
    /// under the home directory, the rest under the configuration
    /// directory.
    pub fn config_path(&self, home: &str, config: &str) -> (r: String)
        ensures
            r@ == self.config_path_spec(home@, config@),
    {
        match self {
            Shell::Bash => {
                let mut s = home.to_owned();
                s.append("/.bashrc");
                s
            },
            Shell::Zsh => {
                let mut s = home.to_owned();
                s.append("/.zshrc");
                s
            },
            Shell::Fish => {
                let mut s = config.to_owned();
                s.append("/fish/config.fish");
                s
            },
            Shell::Elvish => {
                let mut s = config.to_owned();
                s.append("/elvish/rc.elv");
                s
            },
            Shell::PowerShell => {
                let mut s = config.to_owned();
                s.append("/powershell/Microsoft.PowerShell_profile.ps1");
                s
            },
        }
    }
}

} // verus!
