//! The deploy manifest: an ordered list of branches, each with a name and an
//! ordered list of shell command strings, together with its text form.
//!
//! The text form is line-oriented:
//!
//! ```text
//! branches:
//! - name: main
//!   commands:
//!   - docker-compose build
//!   - docker-compose up -d
//! ```
//!
//! `parse` accepts exactly the texts that `serialize` produces, and the two
//! are inverses: see `lemma_manifest_round_trip`. The grammar is strict by
//! design: only this canonical rendering is a manifest, so a hand-written
//! file must use it (no other indentation, quoting or flow style), and a
//! manifest whose branch names or commands hold a newline has no text form.

use vstd::prelude::*;

use crate::text::starts_with_seq;
use crate::text::str_starts_with;

verus! {

/// One branch entry of a deploy manifest: the branch's name and its deploy
/// commands, in execution order.
#[derive(Debug, Clone, PartialEq, Eq)]
pub struct Branch {
    pub name: String,
    pub commands: Vec<String>,
}

/// Mathematical model of a branch entry.
#[verifier::ext_equal]
pub ghost struct BranchView {
    pub name: Seq<char>,
    pub commands: Seq<Seq<char>>,
}

impl View for Branch {
    type V = BranchView;

    open spec fn view(&self) -> BranchView {
        BranchView { name: self.name@, commands: self.commands.deep_view() }
    }
}

/// A parsed deploy manifest: the branches in declared order.
#[derive(Debug, Clone, PartialEq, Eq)]
pub struct DeployInfo {
    pub branches: Vec<Branch>,
}

/// Mathematical model of a manifest.
#[verifier::ext_equal]
pub ghost struct DeployInfoView {
    pub branches: Seq<BranchView>,
}

impl View for DeployInfo {
    type V = DeployInfoView;

    open spec fn view(&self) -> DeployInfoView {
        DeployInfoView {
            branches: Seq::new(self.branches.len() as nat, |i: int| self.branches[i]@),
        }
    }
}

/// The text cannot be decoded into the branch/command shape.
#[derive(Debug, Clone, Copy, PartialEq, Eq, Structural)]
pub enum ManifestParseError {
    MalformedManifest,
}

/// `s` holds no newline, so it fits on one line of the manifest text.
pub open spec fn newline_free(s: Seq<char>) -> bool {
    forall|i: int| 0 <= i < s.len() ==> s[i] != '\n'
}

/// Every branch name and every command of `m` fits on one line; exactly
/// these manifests have a faithful text form.
pub open spec fn manifest_serializable(m: DeployInfoView) -> bool {
    forall|i: int|
        0 <= i < m.branches.len() ==> newline_free((#[trigger] m.branches[i]).name)
            && forall|j: int|
            0 <= j < m.branches[i].commands.len() ==> newline_free(
                #[trigger] m.branches[i].commands[j],
            )
}

// ---------------------------------------------------------------------------
// The text form, as spec functions.
// ---------------------------------------------------------------------------
/// The line of one command.
pub open spec fn command_text(c: Seq<char>) -> Seq<char> {
    "  - "@ + c + "\n"@
}

/// The lines of a command list, in order.
pub open spec fn commands_text(cs: Seq<Seq<char>>) -> Seq<char>
    decreases cs.len(),
{
    if cs.len() == 0 {
        Seq::empty()
    } else {
        command_text(cs[0]) + commands_text(cs.subrange(1, cs.len() as int))
    }
}

/// The lines of one branch entry.
pub open spec fn branch_text(b: BranchView) -> Seq<char> {
    "- name: "@ + b.name + "\n"@ + "  commands:\n"@ + commands_text(b.commands)
}

/// The lines of a branch list, in order.
pub open spec fn branches_text(bs: Seq<BranchView>) -> Seq<char>
    decreases bs.len(),
{
    if bs.len() == 0 {
        Seq::empty()
    } else {
        branch_text(bs[0]) + branches_text(bs.subrange(1, bs.len() as int))
    }
}

/// The whole manifest text.
pub open spec fn manifest_text(m: DeployInfoView) -> Seq<char> {
    "branches:\n"@ + branches_text(m.branches)
}

// ---------------------------------------------------------------------------
// Parsing, as spec functions.
// ---------------------------------------------------------------------------
/// Splits `s` at its first newline into the line before it and the rest
/// after it; `None` when `s` holds no newline.
pub open spec fn line_split(s: Seq<char>) -> Option<(Seq<char>, Seq<char>)>
    decreases s.len(),
{
    if s.len() == 0 {
        None
    } else if s[0] == '\n' {
        Some((Seq::empty(), s.subrange(1, s.len() as int)))
    } else {
        match line_split(s.subrange(1, s.len() as int)) {
            None => None,
            Some((line, rest)) => Some((seq![s[0]] + line, rest)),
        }
    }
}

proof fn lemma_line_split_len(s: Seq<char>)
    requires
        line_split(s) is Some,
    ensures
        line_split(s)->Some_0.0.len() + 1 + line_split(s)->Some_0.1.len() == s.len(),
        newline_free(line_split(s)->Some_0.0),
    decreases s.len(),
{
    if s.len() > 0 && s[0] != '\n' {
        lemma_line_split_len(s.subrange(1, s.len() as int));
    }
}

/// The command lines at the start of `s`: as long as a line starts with the
/// command marker, its remainder is a command; a marked line without a
/// newline is malformed. Hands back the commands and what follows them.
pub open spec fn parse_commands(s: Seq<char>) -> Option<(Seq<Seq<char>>, Seq<char>)>
    decreases s.len(),
    via parse_commands_decreases
{
    if starts_with_seq(s, "  - "@) {
        match line_split(s.subrange("  - "@.len() as int, s.len() as int)) {
            None => None,
            Some((cmd, rest)) => match parse_commands(rest) {
                None => None,
                Some((cmds, tail)) => Some((seq![cmd] + cmds, tail)),
            },
        }
    } else {
        Some((Seq::empty(), s))
    }
}

#[via_fn]
proof fn parse_commands_decreases(s: Seq<char>) {
    if starts_with_seq(s, "  - "@) {
        let inner = s.subrange("  - "@.len() as int, s.len() as int);
        if line_split(inner) is Some {
            lemma_line_split_len(inner);
        }
    }
}

proof fn lemma_parse_commands_len(s: Seq<char>)
    requires
        parse_commands(s) is Some,
    ensures
        parse_commands(s)->Some_0.1.len() <= s.len(),
    decreases s.len(),
{
    if starts_with_seq(s, "  - "@) {
        let inner = s.subrange("  - "@.len() as int, s.len() as int);
        if line_split(inner) is Some {
            lemma_line_split_len(inner);
            let (cmd, rest) = line_split(inner)->Some_0;
            if parse_commands(rest) is Some {
                lemma_parse_commands_len(rest);
            }
        }
    }
}

/// The branch entries filling all of `s`: each starts with the name marker,
/// carries a commands header line, and its command lines; `s` must be used
/// up exactly.
pub open spec fn parse_branches(s: Seq<char>) -> Option<Seq<BranchView>>
    decreases s.len(),
    via parse_branches_decreases
{
    if s.len() == 0 {
        Some(Seq::empty())
    } else if starts_with_seq(s, "- name: "@) {
        match line_split(s.subrange("- name: "@.len() as int, s.len() as int)) {
            None => None,
            Some((name, rest)) => if starts_with_seq(rest, "  commands:\n"@) {
                match parse_commands(rest.subrange("  commands:\n"@.len() as int, rest.len() as int)) {
                    None => None,
                    Some((cmds, tail)) => match parse_branches(tail) {
                        None => None,
                        Some(bs) => Some(seq![BranchView { name, commands: cmds }] + bs),
                    },
                }
            } else {
                None
            },
        }
    } else {
        None
    }
}

#[via_fn]
proof fn parse_branches_decreases(s: Seq<char>) {
    reveal_strlit("- name: ");
    reveal_strlit("  commands:\n");
    reveal_strlit("  - ");
    if s.len() != 0 && starts_with_seq(s, "- name: "@) {
        let inner = s.subrange("- name: "@.len() as int, s.len() as int);
        if line_split(inner) is Some {
            lemma_line_split_len(inner);
            let (name, rest) = line_split(inner)->Some_0;
            if starts_with_seq(rest, "  commands:\n"@) {
                let after = rest.subrange("  commands:\n"@.len() as int, rest.len() as int);
                if parse_commands(after) is Some {
                    lemma_parse_commands_len(after);
                }
            }
        }
    }
}

/// The manifest the text stands for, if it is well-formed: a `branches:`
/// header line followed by the branch entries.
pub open spec fn parse_manifest(s: Seq<char>) -> Option<DeployInfoView> {
    if starts_with_seq(s, "branches:\n"@) {
        match parse_branches(s.subrange("branches:\n"@.len() as int, s.len() as int)) {
            None => None,
            Some(bs) => Some(DeployInfoView { branches: bs }),
        }
    } else {
        None
    }
}

// ---------------------------------------------------------------------------
// Round trip: parsing a serialized manifest gives the manifest back.
// ---------------------------------------------------------------------------
proof fn lemma_line_split_at(s: Seq<char>, i: int)
    requires
        0 <= i < s.len(),
        s[i] == '\n',
        forall|j: int| 0 <= j < i ==> s[j] != '\n',
    ensures
        line_split(s) == Some((s.subrange(0, i), s.subrange(i + 1, s.len() as int))),
    decreases s.len(),
{
    if i == 0 {
        assert(s.subrange(0, 0) =~= Seq::<char>::empty());
    } else {
        let t = s.subrange(1, s.len() as int);
        lemma_line_split_at(t, i - 1);
        assert(seq![s[0]] + t.subrange(0, i - 1) =~= s.subrange(0, i));
        assert(t.subrange(i, t.len() as int) =~= s.subrange(i + 1, s.len() as int));
    }
}

proof fn lemma_line_split_concat(line: Seq<char>, rest: Seq<char>)
    requires
        newline_free(line),
    ensures
        line_split(line + "\n"@ + rest) == Some((line, rest)),
{
    reveal_strlit("\n");
    let s = line + "\n"@ + rest;
    let i = line.len() as int;
    assert(s[i] == '\n');
    assert forall|j: int| 0 <= j < i implies s[j] != '\n' by {
        assert(s[j] == line[j]);
    }
    lemma_line_split_at(s, i);
    assert(s.subrange(0, i) =~= line);
    assert(s.subrange(i + 1, s.len() as int) =~= rest);
}

proof fn lemma_parse_commands_round_trip(cs: Seq<Seq<char>>, tail: Seq<char>)
    requires
        forall|j: int| 0 <= j < cs.len() ==> newline_free(#[trigger] cs[j]),
        !starts_with_seq(tail, "  - "@),
    ensures
        parse_commands(commands_text(cs) + tail) == Some((cs, tail)),
    decreases cs.len(),
{
    reveal_strlit("  - ");
    reveal_strlit("\n");
    if cs.len() == 0 {
        assert(commands_text(cs) + tail =~= tail);
        assert(parse_commands(tail) == Some((Seq::<Seq<char>>::empty(), tail)));
        assert(Seq::<Seq<char>>::empty() =~= cs);
    } else {
        let rest_cs = cs.subrange(1, cs.len() as int);
        let s = commands_text(cs) + tail;
        let marker = "  - "@;
        assert(s =~= marker + (cs[0] + "\n"@ + (commands_text(rest_cs) + tail)));
        assert(s.subrange(0, marker.len() as int) =~= marker);
        let inner = s.subrange(marker.len() as int, s.len() as int);
        assert(inner =~= cs[0] + "\n"@ + (commands_text(rest_cs) + tail));
        lemma_line_split_concat(cs[0], commands_text(rest_cs) + tail);
        lemma_parse_commands_round_trip(rest_cs, tail);
        assert(seq![cs[0]] + rest_cs =~= cs);
    }
}

proof fn lemma_branches_text_not_command(bs: Seq<BranchView>)
    ensures
        !starts_with_seq(branches_text(bs), "  - "@),
{
    reveal_strlit("  - ");
    reveal_strlit("- name: ");
    if bs.len() > 0 {
        let s = branches_text(bs);
        assert(s =~= "- name: "@ + (bs[0].name + "\n"@ + "  commands:\n"@ + commands_text(
            bs[0].commands,
        ) + branches_text(bs.subrange(1, bs.len() as int))));
        if starts_with_seq(s, "  - "@) {
            assert(s.subrange(0, 4)[0] == ' ');
            assert(s[0] == '-');
        }
    }
}

proof fn lemma_parse_branches_round_trip(bs: Seq<BranchView>)
    requires
        forall|i: int|
            0 <= i < bs.len() ==> newline_free((#[trigger] bs[i]).name) && forall|j: int|
                0 <= j < bs[i].commands.len() ==> newline_free(#[trigger] bs[i].commands[j]),
    ensures
        parse_branches(branches_text(bs)) == Some(bs),
    decreases bs.len(),
{
    reveal_strlit("- name: ");
    reveal_strlit("  commands:\n");
    reveal_strlit("\n");
    if bs.len() == 0 {
        assert(branches_text(bs) =~= Seq::<char>::empty());
        assert(Seq::<BranchView>::empty() =~= bs);
    } else {
        let b = bs[0];
        let rest_bs = bs.subrange(1, bs.len() as int);
        let s = branches_text(bs);
        let marker = "- name: "@;
        let header = "  commands:\n"@;
        let after_name = header + commands_text(b.commands) + branches_text(rest_bs);
        assert(s =~= marker + (b.name + "\n"@ + after_name));
        assert(s.len() > 0);
        assert(s.subrange(0, marker.len() as int) =~= marker);
        let inner = s.subrange(marker.len() as int, s.len() as int);
        assert(inner =~= b.name + "\n"@ + after_name);
        lemma_line_split_concat(b.name, after_name);
        assert(after_name.subrange(0, header.len() as int) =~= header);
        let after_header = after_name.subrange(header.len() as int, after_name.len() as int);
        assert(after_header =~= commands_text(b.commands) + branches_text(rest_bs));
        lemma_branches_text_not_command(rest_bs);
        lemma_parse_commands_round_trip(b.commands, branches_text(rest_bs));
        lemma_parse_branches_round_trip(rest_bs);
        assert(BranchView { name: b.name, commands: b.commands } =~= b);
        assert(seq![b] + rest_bs =~= bs);
    }
}

/// Manifest round trip: parsing the text form of any manifest whose names
/// and commands fit on one line yields that manifest again.
pub proof fn lemma_manifest_round_trip(m: DeployInfoView)
    requires
        manifest_serializable(m),
    ensures
        parse_manifest(manifest_text(m)) == Some(m),
{
    reveal_strlit("branches:\n");
    let s = manifest_text(m);
    let header = "branches:\n"@;
    assert(s.subrange(0, header.len() as int) =~= header);
    let rest = s.subrange(header.len() as int, s.len() as int);
    assert(rest =~= branches_text(m.branches));
    lemma_parse_branches_round_trip(m.branches);
    assert(DeployInfoView { branches: m.branches } =~= m);
}

// ---------------------------------------------------------------------------
// The executable parser and serializer.
// ---------------------------------------------------------------------------
fn split_line<'a>(s: &'a str) -> (r: Option<(String, &'a str)>)
    ensures
        match r {
            Some((line, rest)) => line_split(s@) == Some((line@, rest@)),
            None => line_split(s@) is None,
        },
{
    let len = s.unicode_len();
    let mut i: usize = 0;
    while i < len
        invariant
            0 <= i <= len,
            len == s@.len(),
            forall|j: int| 0 <= j < i ==> s@[j] != '\n',
        decreases len - i,
    {
        if s.get_char(i) == '\n' {
            let line = s.substring_char(0, i).to_owned();
            let rest = s.substring_char(i + 1, len);
            proof {
                lemma_line_split_at(s@, i as int);
            }
            return Some((line, rest));
        }
        i = i + 1;
    }
    proof {
        lemma_line_split_no_newline(s@);
    }
    None
}

proof fn lemma_line_split_no_newline(s: Seq<char>)
    requires
        newline_free(s),
    ensures
        line_split(s) is None,
    decreases s.len(),
{
    if s.len() > 0 {
        lemma_line_split_no_newline(s.subrange(1, s.len() as int));
    }
}

fn parse_commands_exec<'a>(s: &'a str) -> (r: Option<(Vec<String>, &'a str)>)
    ensures
        match r {
            Some((cmds, rest)) => parse_commands(s@) == Some((cmds.deep_view(), rest@)),
            None => parse_commands(s@) is None,
        },
    decreases s@.len(),
{
    if str_starts_with(s, "  - ") {
        proof {
            reveal_strlit("  - ");
        }
        let len = s.unicode_len();
        let inner = s.substring_char(4, len);
        match split_line(inner) {
            None => None,
            Some((cmd, rest)) => {
                proof {
                    lemma_line_split_len(inner@);
                }
                match parse_commands_exec(rest) {
                    None => None,
                    Some((mut cmds, tail)) => {
                        let ghost before = cmds.deep_view();
                        cmds.insert(0, cmd);
                        proof {
                            assert(cmds.deep_view() =~= seq![cmd@] + before);
                        }
                        Some((cmds, tail))
                    },
                }
            },
        }
    } else {
        proof {
            reveal_strlit("  - ");
        }
        let out: Vec<String> = Vec::new();
        proof {
            assert(out.deep_view() =~= Seq::<Seq<char>>::empty());
        }
        Some((out, s))
    }
}

fn parse_branches_exec<'a>(s: &'a str) -> (r: Option<Vec<Branch>>)
    ensures
        match r {
            Some(branches) => parse_branches(s@) == Some(
                Seq::new(branches.len() as nat, |i: int| branches[i]@),
            ),
            None => parse_branches(s@) is None,
        },
    decreases s@.len(),
{
    let len = s.unicode_len();
    if len == 0 {
        let out: Vec<Branch> = Vec::new();
        proof {
            assert(Seq::new(out.len() as nat, |i: int| out[i]@) =~= Seq::<BranchView>::empty());
        }
        return Some(out);
    }
    if !str_starts_with(s, "- name: ") {
        return None;
    }
    proof {
        reveal_strlit("- name: ");
        reveal_strlit("  commands:\n");
    }
    let inner = s.substring_char(8, len);
    match split_line(inner) {
        None => None,
        Some((name, rest)) => {
            proof {
                lemma_line_split_len(inner@);
            }
            if !str_starts_with(rest, "  commands:\n") {
                return None;
            }
            let rest_len = rest.unicode_len();
            let after_header = rest.substring_char(12, rest_len);
            match parse_commands_exec(after_header) {
                None => None,
                Some((commands, tail)) => {
                    proof {
                        lemma_parse_commands_len(after_header@);
                    }
                    match parse_branches_exec(tail) {
                        None => None,
                        Some(mut branches) => {
                            let ghost before = Seq::new(
                                branches.len() as nat,
                                |i: int| branches[i]@,
                            );
                            let branch = Branch { name, commands };
                            let ghost bv = branch@;
                            branches.insert(0, branch);
                            proof {
                                assert(Seq::new(branches.len() as nat, |i: int| branches[i]@)
                                    =~= seq![bv] + before);
                            }
                            Some(branches)
                        },
                    }
                },
            }
        },
    }
}

impl DeployInfo {
    /// Parses a manifest text; exactly the well-formed texts (the images of
    /// `serialize`) are accepted, and what they parse to is the manifest
    /// they serialize.
    pub fn parse(text: &str) -> (r: Result<DeployInfo, ManifestParseError>)
        ensures
            match r {
                Ok(info) => parse_manifest(text@) == Some(info@),
                Err(e) => parse_manifest(text@) is None && e
                    == ManifestParseError::MalformedManifest,
            },
    {
        if !str_starts_with(text, "branches:\n") {
            return Err(ManifestParseError::MalformedManifest);
        }
        proof {
            reveal_strlit("branches:\n");
        }
        let len = text.unicode_len();
        let body = text.substring_char(10, len);
        match parse_branches_exec(body) {
            None => Err(ManifestParseError::MalformedManifest),
            Some(branches) => Ok(DeployInfo { branches }),
        }
    }

    /// Renders the manifest in its text form.
    pub fn serialize(&self) -> (r: String)
        ensures
            r@ == manifest_text(self@),
    {
        let mut out = String::new();
        out.append("branches:\n");
        let n = self.branches.len();
        let mut i: usize = 0;
        while i < n
            invariant
                0 <= i <= n,
                n == self.branches@.len(),
                out@ == "branches:\n"@ + branches_text(self@.branches.subrange(0, i as int)),
            decreases n - i,
        {
            let ghost done = self@.branches.subrange(0, i as int);
            let branch = &self.branches[i];
            out.append("- name: ");
            out.append(branch.name.as_str());
            out.append("\n");
            out.append("  commands:\n");
            let m = branch.commands.len();
            let mut k: usize = 0;
            while k < m
                invariant
                    0 <= k <= m,
                    m == branch.commands@.len(),
                    out@ == "branches:\n"@ + branches_text(done) + "- name: "@ + branch.name@
                        + "\n"@ + "  commands:\n"@ + commands_text(
                        branch.commands.deep_view().subrange(0, k as int),
                    ),
                decreases m - k,
            {
                out.append("  - ");
                out.append(branch.commands[k].as_str());
                out.append("\n");
                proof {
                    lemma_commands_text_snoc(branch.commands.deep_view(), k as int);
                }
                k = k + 1;
            }
            proof {
                assert(branch.commands.deep_view().subrange(0, m as int) =~= branch.commands.deep_view());
                lemma_branches_text_snoc(self@.branches, i as int);
            }
            i = i + 1;
        }
        proof {
            assert(self@.branches.subrange(0, n as int) =~= self@.branches);
        }
        out
    }
}

proof fn lemma_commands_text_snoc(cs: Seq<Seq<char>>, k: int)
    requires
        0 <= k < cs.len(),
    ensures
        commands_text(cs.subrange(0, k + 1)) == commands_text(cs.subrange(0, k)) + command_text(
            cs[k],
        ),
    decreases k,
{
    let pre = cs.subrange(0, k + 1);
    if k == 0 {
        assert(pre[0] == cs[0]);
        assert(pre.subrange(1, pre.len() as int) =~= Seq::<Seq<char>>::empty());
        assert(commands_text(pre.subrange(1, pre.len() as int)) =~= Seq::<char>::empty());
        assert(commands_text(cs.subrange(0, 0)) =~= Seq::<char>::empty());
        assert(commands_text(pre) =~= command_text(cs[0]));
        assert(commands_text(cs.subrange(0, 0)) + command_text(cs[0]) =~= command_text(cs[0]));
    } else {
        let shifted = cs.subrange(1, cs.len() as int);
        lemma_commands_text_snoc(shifted, k - 1);
        assert(pre[0] == cs[0]);
        assert(pre.subrange(1, pre.len() as int) =~= shifted.subrange(0, k));
        assert(cs.subrange(0, k)[0] == cs[0]);
        assert(cs.subrange(0, k).subrange(1, k) =~= shifted.subrange(0, k - 1));
        assert(shifted[k - 1] == cs[k]);
        assert(commands_text(pre) =~= commands_text(cs.subrange(0, k)) + command_text(cs[k]));
    }
}

proof fn lemma_branches_text_snoc(bs: Seq<BranchView>, i: int)
    requires
        0 <= i < bs.len(),
    ensures
        branches_text(bs.subrange(0, i + 1)) == branches_text(bs.subrange(0, i)) + branch_text(
            bs[i],
        ),
    decreases i,
{
    let pre = bs.subrange(0, i + 1);
    if i == 0 {
        assert(pre[0] == bs[0]);
        assert(pre.subrange(1, pre.len() as int) =~= Seq::<BranchView>::empty());
        assert(branches_text(pre.subrange(1, pre.len() as int)) =~= Seq::<char>::empty());
        assert(branches_text(bs.subrange(0, 0)) =~= Seq::<char>::empty());
        assert(branches_text(pre) =~= branch_text(bs[0]));
        assert(branches_text(bs.subrange(0, 0)) + branch_text(bs[0]) =~= branch_text(bs[0]));
    } else {
        let shifted = bs.subrange(1, bs.len() as int);
        lemma_branches_text_snoc(shifted, i - 1);
        assert(pre[0] == bs[0]);
        assert(pre.subrange(1, pre.len() as int) =~= shifted.subrange(0, i));
        assert(bs.subrange(0, i)[0] == bs[0]);
        assert(bs.subrange(0, i).subrange(1, i) =~= shifted.subrange(0, i - 1));
        assert(shifted[i - 1] == bs[i]);
        assert(branches_text(pre) =~= branches_text(bs.subrange(0, i)) + branch_text(bs[i]));
    }
}

} // verus!
