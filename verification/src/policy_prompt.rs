//! Permission summaries for agent prompts, read from the annotations of the
//! single-policy files of the policy store (`@tool("...")` and
//! `@description("...")`).

use vstd::prelude::*;
use crate::text::{concat_all, lines, lines_spec, starts_with, trim, trim_spec};

verus! {

/// One permission: a tool and what it is for.
#[derive(Debug)]
pub struct PermissionEntry {
    pub tool: String,
    pub description: String,
}

impl Clone for PermissionEntry {
    fn clone(&self) -> (res: Self)
        ensures
            res == *self,
    {
        PermissionEntry { tool: self.tool.clone(), description: self.description.clone() }
    }
}

/// The value of annotation `name` on a trimmed line: the text between
/// `@name("` and a final `")`.
pub open spec fn annotation_value(line: Seq<char>, name: Seq<char>) -> Option<Seq<char>> {
    let prefix = seq!['@'] + name + seq!['(', '"'];
    if line.len() >= prefix.len() + 2 && line.take(prefix.len() as int) == prefix && line.skip(
        line.len() - 2,
    ) == seq!['"', ')'] {
        Some(line.subrange(prefix.len() as int, line.len() - 2))
    } else {
        None
    }
}

/// The last `@tool` and the last `@description` among `ls` (a line that is a
/// `@tool` annotation is not read as a description).
pub open spec fn annotations(ls: Seq<Seq<char>>) -> (Option<Seq<char>>, Option<Seq<char>>)
    decreases ls.len(),
{
    if ls.len() == 0 {
        (None, None)
    } else {
        let (t, d) = annotations(ls.drop_last());
        let l = trim_spec(ls.last());
        match annotation_value(l, "tool"@) {
            Some(v) => (Some(v), d),
            None => match annotation_value(l, "description"@) {
                Some(v) => (t, Some(v)),
                None => (t, d),
            },
        }
    }
}

/// The value of annotation `name` on `line`.
pub fn extract_annotation(line: &str, name: &str) -> (res: Option<String>)
    ensures
        match res {
            Some(v) => annotation_value(line@, name@) == Some(v@),
            None => annotation_value(line@, name@) is None,
        },
{
    let mut prefix = String::new();
    prefix.append("@");
    prefix.append(name);
    prefix.append("(\"");
    proof {
        reveal_strlit("@");
        reveal_strlit("(\"");
        assert(prefix@ =~= seq!['@'] + name@ + seq!['(', '"']);
    }
    let cs = crate::text::to_chars(line);
    let pl = prefix.as_str().unicode_len();
    if !starts_with(line, prefix.as_str()) || cs.len() < 2 || cs.len() - 2 < pl {
        return None;
    }
    let n = cs.len();
    if cs[n - 2] != '"' || cs[n - 1] != ')' {
        proof {
            assert(line@.skip(n - 2)[0] == cs@[n - 2]);
            assert(line@.skip(n - 2)[1] == cs@[n - 1]);
        }
        return None;
    }
    let mut out = String::new();
    let mut i: usize = pl;
    while i < n - 2
        invariant
            cs@ == line@,
            n == cs@.len(),
            pl + 2 <= n,
            pl <= i <= n - 2,
            out@ == line@.subrange(pl as int, i as int),
        decreases n - 2 - i,
    {
        crate::text::push_char(&mut out, cs[i]);
        i = i + 1;
        proof {
            assert(out@ =~= line@.subrange(pl as int, i as int));
        }
    }
    proof {
        assert(line@.skip(n - 2) =~= seq!['"', ')']);
    }
    Some(out)
}

/// Reads the `@tool` and `@description` annotations of a single-policy
/// file; `None` unless both are present.
pub fn parse_single_policy_annotations(content: &str) -> (res: Option<PermissionEntry>)
    ensures
        match annotations(lines_spec(content@)) {
            (Some(t), Some(d)) => res matches Some(e) && e.tool@ == t && e.description@ == d,
            _ => res is None,
        },
{
    let ls = lines(content);
    let ghost lv = lines_spec(content@);
    let mut tool: Option<String> = None;
    let mut description: Option<String> = None;
    let mut i: usize = 0;
    while i < ls.len()
        invariant
            i <= ls@.len(),
            Seq::new(ls@.len(), |k: int| ls@[k]@) == lv,
            annotations(lv.take(i as int)) == (
                match tool {
                    Some(t) => Some(t@),
                    None => None::<Seq<char>>,
                },
                match description {
                    Some(d) => Some(d@),
                    None => None::<Seq<char>>,
                },
            ),
        decreases ls@.len() - i,
    {
        proof {
            let t = lv.take(i as int + 1);
            assert(t.drop_last() =~= lv.take(i as int));
            assert(t.last() == ls@[i as int]@);
        }
        let trimmed = trim(ls[i].as_str());
        match extract_annotation(trimmed.as_str(), "tool") {
            Some(v) => {
                tool = Some(v);
            },
            None => match extract_annotation(trimmed.as_str(), "description") {
                Some(v) => {
                    description = Some(v);
                },
                None => {},
            },
        }
        i = i + 1;
    }
    proof {
        assert(lv.take(ls@.len() as int) =~= lv);
    }
    match (tool, description) {
        (Some(t), Some(d)) => Some(PermissionEntry { tool: t, description: d }),
        _ => None,
    }
}

/// The agent a policy file belongs to: its name up to the first `-`.
pub open spec fn agent_of_stem(stem: Seq<char>) -> Seq<char> {
    if exists|i: int| 0 <= i < stem.len() && #[trigger] stem[i] == '-' {
        let i = choose|i: int| 0 <= i < stem.len() && stem[i] == '-' && forall|j: int| 0 <= j < i ==> stem[j] != '-';
        stem.take(i)
    } else {
        stem
    }
}

/// The agent a policy file (by its name without extension) belongs to.
pub fn agent_name_from_stem(stem: &str) -> (res: String)
    ensures
        res@ == agent_of_stem(stem@),
{
    let cs = crate::text::to_chars(stem);
    let mut out = String::new();
    let mut i: usize = 0;
    while i < cs.len() && cs[i] != '-'
        invariant
            cs@ == stem@,
            i <= cs@.len(),
            out@ == stem@.take(i as int),
            forall|j: int| 0 <= j < i ==> stem@[j] != '-',
        decreases cs@.len() - i,
    {
        crate::text::push_char(&mut out, cs[i]);
        i = i + 1;
        proof {
            assert(out@ =~= stem@.take(i as int));
        }
    }
    proof {
        if i < cs.len() {
            let k = choose|k: int| 0 <= k < stem@.len() && stem@[k] == '-' && forall|j: int| 0 <= j < k ==> stem@[j] != '-';
            if k < i {
            } else if k > i {
                assert(stem@[i as int] != '-');
            }
        } else {
            assert(stem@.take(i as int) =~= stem@);
        }
    }
    out
}

/// Adds `entry` to the permissions of `agent`, keeping agents in the order
/// they were first seen and each agent's entries in the order added.
pub fn add_permission(groups: &mut Vec<(String, Vec<PermissionEntry>)>, agent: String, entry: PermissionEntry)
    ensures
        match (exists|i: int| 0 <= i < old(groups)@.len() && #[trigger] old(groups)@[i].0@ == agent@) {
            true => exists|i: int| {
                &&& 0 <= i < old(groups)@.len()
                &&& #[trigger] old(groups)@[i].0@ == agent@
                &&& forall|j: int| 0 <= j < i ==> old(groups)@[j].0@ != agent@
                &&& final(groups)@.len() == old(groups)@.len()
                &&& final(groups)@[i].0 == old(groups)@[i].0
                &&& final(groups)@[i].1@ == old(groups)@[i].1@.push(entry)
                &&& forall|j: int| 0 <= j < old(groups)@.len() && j != i ==> final(groups)@[j] == old(groups)@[j]
            },
            false => final(groups)@.len() == old(groups)@.len() + 1 && final(groups)@.drop_last() == old(groups)@
                && final(groups)@.last().0 == agent && final(groups)@.last().1@ == seq![entry],
        },
{
    let mut i: usize = 0;
    while i < groups.len()
        invariant
            i <= groups@.len(),
            groups@ == old(groups)@,
            forall|j: int| 0 <= j < i ==> groups@[j].0@ != agent@,
        decreases groups@.len() - i,
    {
        if groups[i].0 == agent {
            let ghost og = groups@;
            let (name, mut es) = groups.remove(i);
            es.push(entry);
            groups.insert(i, (name, es));
            proof {
                assert(groups@.len() == og.len());
                assert forall|j: int| 0 <= j < og.len() && j != i implies groups@[j] == og[j] by {}
            }
            return;
        }
        i = i + 1;
    }
    let mut es: Vec<PermissionEntry> = Vec::new();
    es.push(entry);
    let ghost og = groups@;
    groups.push((agent, es));
    proof {
        assert(groups@.drop_last() =~= og);
        assert(groups@.last().1@ =~= seq![entry]);
    }
}

/// A file of the policy store's `policies` directory: its name without the
/// extension, its extension when it has one, and its text.
#[derive(Debug)]
pub struct PolicyFile {
    pub stem: String,
    pub extension: Option<String>,
    pub content: String,
}

/// The agent and the `(tool, description)` permission a policy file grants:
/// only `.cedar` files with both annotations grant one.
pub open spec fn file_grant(f: PolicyFile) -> Option<(Seq<char>, (Seq<char>, Seq<char>))> {
    if f.extension matches Some(e) && e@ == "cedar"@ {
        match annotations(lines_spec(f.content@)) {
            (Some(t), Some(d)) => Some((agent_of_stem(f.stem@), (t, d))),
            _ => None,
        }
    } else {
        None
    }
}

/// The permissions that `fs` grant agent `a`, in file order.
pub open spec fn grants_for(fs: Seq<PolicyFile>, a: Seq<char>) -> Seq<(Seq<char>, Seq<char>)>
    decreases fs.len(),
{
    if fs.len() == 0 {
        Seq::empty()
    } else {
        let rest = grants_for(fs.drop_last(), a);
        match file_grant(fs.last()) {
            Some((b, g)) => if b == a { rest.push(g) } else { rest },
            None => rest,
        }
    }
}

/// The `(tool, description)` texts of permission entries.
pub open spec fn entry_texts(es: Seq<PermissionEntry>) -> Seq<(Seq<char>, Seq<char>)> {
    Seq::new(es.len(), |i: int| (es[i].tool@, es[i].description@))
}

/// The permissions by agent: agents are distinct, each holds exactly what
/// the files grant it, and every agent granted something is present.
pub open spec fn groups_match(gs: Seq<(String, Vec<PermissionEntry>)>, fs: Seq<PolicyFile>) -> bool {
    &&& forall|i: int, j: int| 0 <= i < j < gs.len() ==> #[trigger] gs[i].0@ != #[trigger] gs[j].0@
    &&& forall|i: int| 0 <= i < gs.len() ==> entry_texts(#[trigger] gs[i].1@) == grants_for(fs, gs[i].0@)
    &&& forall|i: int| 0 <= i < gs.len() ==> (#[trigger] gs[i].1@).len() > 0
    &&& forall|a: Seq<char>| #[trigger] grants_for(fs, a).len() > 0 ==> exists|i: int| 0 <= i < gs.len() && gs[i].0@ == a
}

/// Groups the permissions that the policy files grant by agent (the agent
/// being the file name up to its first `-`).
pub fn permissions_from_files(files: &Vec<PolicyFile>) -> (res: Vec<(String, Vec<PermissionEntry>)>)
    ensures
        groups_match(res@, files@),
{
    let mut groups: Vec<(String, Vec<PermissionEntry>)> = Vec::new();
    let mut k: usize = 0;
    while k < files.len()
        invariant
            k <= files@.len(),
            groups_match(groups@, files@.take(k as int)),
        decreases files@.len() - k,
    {
        let f = &files[k];
        let ghost pre = files@.take(k as int);
        let ghost post = files@.take(k as int + 1);
        proof {
            assert(post.drop_last() =~= pre);
            assert(post.last() == files@[k as int]);
        }
        let is_cedar = match &f.extension {
            Some(e) => crate::text::str_eq(e.as_str(), "cedar"),
            None => false,
        };
        let entry = if is_cedar {
            parse_single_policy_annotations(f.content.as_str())
        } else {
            None
        };
        match entry {
            Some(e) => {
                let agent = agent_name_from_stem(f.stem.as_str());
                let ghost a = agent@;
                let ghost g = (e.tool@, e.description@);
                proof {
                    assert(file_grant(*f) == Some((a, g)));
                    assert forall|b: Seq<char>| #[trigger] grants_for(post, b) == if b == a {
                        grants_for(pre, b).push(g)
                    } else {
                        grants_for(pre, b)
                    } by {}
                }
                let ghost old_groups = groups@;
                add_permission(&mut groups, agent, e);
                proof {
                    if exists|i: int| 0 <= i < old_groups.len() && #[trigger] old_groups[i].0@ == a {
                        let i = choose|i: int| {
                            &&& 0 <= i < old_groups.len()
                            &&& #[trigger] old_groups[i].0@ == a
                            &&& forall|j: int| 0 <= j < i ==> old_groups[j].0@ != a
                            &&& groups@.len() == old_groups.len()
                            &&& groups@[i].0 == old_groups[i].0
                            &&& groups@[i].1@ == old_groups[i].1@.push(e)
                            &&& forall|j: int| 0 <= j < old_groups.len() && j != i ==> groups@[j] == old_groups[j]
                        };
                        assert(entry_texts(groups@[i].1@) =~= entry_texts(old_groups[i].1@).push(g));
                        assert forall|x: int, y: int| 0 <= x < y < groups@.len() implies #[trigger] groups@[x].0@
                            != #[trigger] groups@[y].0@ by {
                            assert(groups@[x].0@ == old_groups[x].0@);
                            assert(groups@[y].0@ == old_groups[y].0@);
                        }
                        assert forall|j: int| 0 <= j < groups@.len() implies entry_texts(#[trigger] groups@[j].1@)
                            == grants_for(post, groups@[j].0@) by {
                            if j != i {
                                assert(groups@[j] == old_groups[j]);
                                assert(old_groups[j].0@ != a);
                            }
                        }
                        assert forall|j: int| 0 <= j < groups@.len() implies (#[trigger] groups@[j].1@).len() > 0 by {
                            if j != i {
                                assert(groups@[j] == old_groups[j]);
                            }
                        }
                        assert forall|b: Seq<char>| #[trigger] grants_for(post, b).len() > 0 implies exists|j: int|
                            0 <= j < groups@.len() && groups@[j].0@ == b by {
                            if b == a {
                                assert(groups@[i].0@ == b);
                            } else {
                                assert(grants_for(pre, b).len() > 0);
                                let j = choose|j: int| 0 <= j < old_groups.len() && old_groups[j].0@ == b;
                                assert(groups@[j] == old_groups[j]);
                            }
                        }
                    } else {
                        let n = old_groups.len() as int;
                        assert(grants_for(pre, a).len() == 0) by {
                            if grants_for(pre, a).len() > 0 {
                                let j = choose|j: int| 0 <= j < old_groups.len() && old_groups[j].0@ == a;
                            }
                        }
                        assert(forall|j: int| 0 <= j < n ==> groups@[j] == old_groups[j]) by {
                            assert forall|j: int| 0 <= j < n implies groups@[j] == old_groups[j] by {
                                assert(groups@.drop_last()[j] == groups@[j]);
                            }
                        }
                        assert(groups@[n].0@ == a);
                        assert(entry_texts(groups@[n].1@) =~= seq![g]);
                        assert(grants_for(post, a) =~= seq![g]);
                        assert forall|x: int, y: int| 0 <= x < y < groups@.len() implies #[trigger] groups@[x].0@
                            != #[trigger] groups@[y].0@ by {
                            assert(groups@[x] == old_groups[x]);
                            if y == n {
                                assert(old_groups[x].0@ != a);
                            } else {
                                assert(groups@[y] == old_groups[y]);
                                assert(old_groups[x].0@ != old_groups[y].0@);
                            }
                        }
                        assert forall|j: int| 0 <= j < groups@.len() implies entry_texts(#[trigger] groups@[j].1@)
                            == grants_for(post, groups@[j].0@) by {
                            if j < n {
                                assert(groups@[j] == old_groups[j]);
                                assert(old_groups[j].0@ != a);
                            }
                        }
                        assert forall|j: int| 0 <= j < groups@.len() implies (#[trigger] groups@[j].1@).len() > 0 by {
                            if j < n {
                                assert(groups@[j] == old_groups[j]);
                            }
                        }
                        assert forall|b: Seq<char>| #[trigger] grants_for(post, b).len() > 0 implies exists|j: int|
                            0 <= j < groups@.len() && groups@[j].0@ == b by {
                            if b == a {
                                assert(groups@[n].0@ == b);
                            } else {
                                assert(grants_for(pre, b).len() > 0);
                                let j = choose|j: int| 0 <= j < old_groups.len() && old_groups[j].0@ == b;
                                assert(groups@[j] == old_groups[j]);
                            }
                        }
                    }
                }
            },
            None => {
                proof {
                    assert(file_grant(*f) is None);
                    assert forall|b: Seq<char>| #[trigger] grants_for(post, b) == grants_for(pre, b) by {}
                }
            },
        }
        k = k + 1;
    }
    proof {
        assert(files@.take(files@.len() as int) =~= files@);
    }
    groups
}

/// The line a permission is listed with.
pub open spec fn permission_line(e: PermissionEntry) -> Seq<char> {
    "\n- "@ + e.tool@ + " \u{2014} "@ + e.description@
}

/// The permissions summary appended to an agent's system prompt (empty for
/// no entries).
pub open spec fn permissions_prompt(entries: Seq<PermissionEntry>) -> Seq<char> {
    if entries.len() == 0 {
        Seq::empty()
    } else {
        "\n## Your permissions\n"@ + "\n"@ + "You are authorized to use the following tools:"@ + concat_all(
            Seq::new(entries.len(), |i: int| permission_line(entries[i])),
        ) + "\n"@ + "\nAny tool call outside this list will be denied."@
    }
}

/// Builds the permissions summary for an agent's system prompt.
pub fn build_permissions_prompt(entries: &[PermissionEntry]) -> (res: String)
    ensures
        res@ == permissions_prompt(entries@),
{
    if entries.len() == 0 {
        return String::new();
    }
    let mut out = String::new();
    out.append("\n## Your permissions\n");
    out.append("\n");
    out.append("You are authorized to use the following tools:");
    let ghost head = out@;
    let ghost ls = Seq::new(entries@.len(), |i: int| permission_line(entries@[i]));
    let mut i: usize = 0;
    while i < entries.len()
        invariant
            i <= entries@.len(),
            ls == Seq::new(entries@.len(), |k: int| permission_line(entries@[k])),
            out@ == head + concat_all(ls.take(i as int)),
        decreases entries@.len() - i,
    {
        out.append("\n- ");
        out.append(entries[i].tool.as_str());
        out.append(" \u{2014} ");
        out.append(entries[i].description.as_str());
        proof {
            let t = ls.take(i as int + 1);
            assert(t.drop_last() =~= ls.take(i as int));
            assert(t.last() == ls[i as int]);
            assert(out@ =~= head + concat_all(t));
        }
        i = i + 1;
    }
    proof {
        assert(ls.take(entries@.len() as int) =~= ls);
    }
    out.append("\n");
    out.append("\nAny tool call outside this list will be denied.");
    out
}

} // verus!
