//! What the command-line commands print: the agents listing, the tool
//! catalog listing, and the identifier given to a generated policy store.
//! The host prints the lines; here is what they say.

use vstd::prelude::*;
use crate::agents::{AgentConfig, Config, McpToolInfo};
use crate::sessions::digit_char;

verus! {

/// Lines listing an agent's permitted actions, each under `indent`.
pub open spec fn actions_block(acts: Seq<Seq<char>>, indent: Seq<char>) -> Seq<Seq<char>> {
    if acts.len() == 0 {
        seq![indent + "permitted_actions: (none — all tools denied)"@]
    } else {
        seq![indent + "permitted_actions:"@] + Seq::new(acts.len(), |i: int| indent + "  - "@ + acts[i])
    }
}

/// The texts of an agent's permitted actions.
pub open spec fn action_texts(a: AgentConfig) -> Seq<Seq<char>> {
    Seq::new(a.permitted_actions@.len(), |i: int| a.permitted_actions@[i]@)
}

/// The lines of one sub-agent, ending with a blank line.
pub open spec fn agent_block(key: Seq<char>, a: AgentConfig) -> Seq<Seq<char>> {
    seq!["  "@ + key + ":"@, "    name: "@ + a.name@, "    description: "@ + a.description@]
        + actions_block(action_texts(a), "    "@) + seq![Seq::<char>::empty()]
}

/// The blocks of the first `n` sub-agents, one after another.
pub open spec fn agent_blocks(agents: Seq<(String, AgentConfig)>, n: nat) -> Seq<Seq<char>>
    decreases n,
{
    if n == 0 || n > agents.len() {
        Seq::empty()
    } else {
        agent_blocks(agents, (n - 1) as nat) + agent_block(agents[n - 1].0@, agents[n - 1].1)
    }
}

/// The listing of the agents file: the orchestrator's permitted actions,
/// then each sub-agent.
pub open spec fn agents_report_spec(c: Config) -> Seq<Seq<char>> {
    seq!["Orchestrator:"@] + actions_block(action_texts(c.orchestrator), "  "@) + seq![
        Seq::<char>::empty(),
        "Sub-agents:"@,
        Seq::<char>::empty(),
    ] + agent_blocks(c.agents@, c.agents@.len())
}

/// Appends the action lines of `a` under `indent`.
fn push_actions(out: &mut Vec<String>, a: &AgentConfig, indent: &str)
    ensures
        Seq::new(final(out)@.len(), |i: int| final(out)@[i]@) == Seq::new(old(out)@.len(), |i: int| old(out)@[i]@)
            + actions_block(action_texts(*a), indent@),
{
    let ghost start = Seq::new(out@.len(), |i: int| out@[i]@);
    let ghost acts = action_texts(*a);
    if a.permitted_actions.len() == 0 {
        let mut l = indent.to_owned();
        l.append("permitted_actions: (none — all tools denied)");
        out.push(l);
        proof {
            assert(Seq::new(out@.len(), |i: int| out@[i]@) =~= start + actions_block(acts, indent@));
        }
    } else {
        let mut h = indent.to_owned();
        h.append("permitted_actions:");
        out.push(h);
        let ghost head = Seq::new(out@.len(), |i: int| out@[i]@);
        proof {
            assert(head =~= start + seq![indent@ + "permitted_actions:"@]);
        }
        let mut j: usize = 0;
        while j < a.permitted_actions.len()
            invariant
                j <= a.permitted_actions@.len(),
                acts == action_texts(*a),
                Seq::new(out@.len(), |i: int| out@[i]@) == head + Seq::new(j as nat, |i: int| indent@ + "  - "@ + acts[i]),
            decreases a.permitted_actions@.len() - j,
        {
            let ghost b = Seq::new(out@.len(), |i: int| out@[i]@);
            let mut l = indent.to_owned();
            l.append("  - ");
            l.append(a.permitted_actions[j].as_str());
            out.push(l);
            proof {
                assert(Seq::new(out@.len(), |i: int| out@[i]@) =~= b.push(indent@ + "  - "@ + acts[j as int]));
                assert(Seq::new((j + 1) as nat, |i: int| indent@ + "  - "@ + acts[i]) =~= Seq::new(
                    j as nat,
                    |i: int| indent@ + "  - "@ + acts[i],
                ).push(indent@ + "  - "@ + acts[j as int]));
            }
            j = j + 1;
        }
        proof {
            assert(Seq::new(out@.len(), |i: int| out@[i]@) =~= start + actions_block(acts, indent@));
        }
    }
}

/// Appends one line.
fn push_line(out: &mut Vec<String>, l: String)
    ensures
        Seq::new(final(out)@.len(), |i: int| final(out)@[i]@) == Seq::new(old(out)@.len(), |i: int| old(out)@[i]@).push(
            l@,
        ),
{
    let ghost start = Seq::new(out@.len(), |i: int| out@[i]@);
    out.push(l);
    proof {
        assert(Seq::new(out@.len(), |i: int| out@[i]@) =~= start.push(out@[out@.len() - 1]@));
    }
}

/// A line of `a` then `b`.
fn two(a: &str, b: &str) -> (res: String)
    ensures
        res@ == a@ + b@,
{
    let mut s = a.to_owned();
    s.append(b);
    s
}

/// The lines the `agents` command prints.
pub fn agents_report(config: &Config) -> (res: Vec<String>)
    ensures
        Seq::new(res@.len(), |i: int| res@[i]@) == agents_report_spec(*config),
{
    let mut out: Vec<String> = Vec::new();
    push_line(&mut out, "Orchestrator:".to_owned());
    push_actions(&mut out, &config.orchestrator, "  ");
    push_line(&mut out, String::new());
    push_line(&mut out, "Sub-agents:".to_owned());
    push_line(&mut out, String::new());
    let ghost head = Seq::new(out@.len(), |i: int| out@[i]@);
    proof {
        assert(head =~= seq!["Orchestrator:"@] + actions_block(action_texts(config.orchestrator), "  "@) + seq![
            Seq::<char>::empty(),
            "Sub-agents:"@,
            Seq::<char>::empty(),
        ]);
    }
    let mut k: usize = 0;
    while k < config.agents.len()
        invariant
            k <= config.agents@.len(),
            Seq::new(out@.len(), |i: int| out@[i]@) == head + agent_blocks(config.agents@, k as nat),
        decreases config.agents@.len() - k,
    {
        let ghost b = Seq::new(out@.len(), |i: int| out@[i]@);
        let key = &config.agents[k].0;
        let a = &config.agents[k].1;
        push_line(&mut out, two(two("  ", key.as_str()).as_str(), ":"));
        push_line(&mut out, two("    name: ", a.name.as_str()));
        push_line(&mut out, two("    description: ", a.description.as_str()));
        push_actions(&mut out, a, "    ");
        push_line(&mut out, String::new());
        proof {
            assert(Seq::new(out@.len(), |i: int| out@[i]@) =~= b + agent_block(key@, *a));
            assert(agent_blocks(config.agents@, (k + 1) as nat) == agent_blocks(config.agents@, k as nat)
                + agent_block(config.agents@[k as int].0@, config.agents@[k as int].1));
        }
        k = k + 1;
    }
    out
}

/// The lines of one tool server's catalog.
pub open spec fn server_block(name: Seq<char>, tools: Seq<McpToolInfo>) -> Seq<Seq<char>>
    decreases tools.len(),
{
    if tools.len() == 0 {
        seq!["  ["@ + name + "]"@]
    } else {
        let t = tools.last();
        server_block(name, tools.drop_last()) + seq![
            "    - "@ + t.name@,
            "      "@ + match t.description {
                Some(d) => d@,
                None => "(no description)"@,
            },
            Seq::<char>::empty(),
        ]
    }
}

/// The blocks of the first `n` servers.
pub open spec fn server_blocks(servers: Seq<(String, Vec<McpToolInfo>)>, n: nat) -> Seq<Seq<char>>
    decreases n,
{
    if n == 0 || n > servers.len() {
        Seq::empty()
    } else {
        server_blocks(servers, (n - 1) as nat) + server_block(servers[n - 1].0@, servers[n - 1].1@)
    }
}

/// The listing of the tool servers' catalogs.
pub open spec fn tools_report_spec(servers: Seq<(String, Vec<McpToolInfo>)>) -> Seq<Seq<char>> {
    seq!["Available tools from MCP servers:"@, Seq::<char>::empty()] + server_blocks(servers, servers.len())
        + seq!["Copy tool names into agents.yaml → permitted_actions to grant access."@]
}

/// Appends the lines of one server's catalog.
fn push_server(out: &mut Vec<String>, name: &String, tools: &Vec<McpToolInfo>)
    ensures
        Seq::new(final(out)@.len(), |i: int| final(out)@[i]@) == Seq::new(old(out)@.len(), |i: int| old(out)@[i]@)
            + server_block(name@, tools@),
{
    let ghost start = Seq::new(out@.len(), |i: int| out@[i]@);
    push_line(out, two(two("  [", name.as_str()).as_str(), "]"));
    proof {
        assert(tools@.take(0).len() == 0);
        assert(Seq::new(out@.len(), |i: int| out@[i]@) =~= start + server_block(name@, tools@.take(0)));
    }
    let mut j: usize = 0;
    while j < tools.len()
        invariant
            j <= tools@.len(),
            Seq::new(out@.len(), |i: int| out@[i]@) == start + server_block(name@, tools@.take(j as int)),
        decreases tools@.len() - j,
    {
        let ghost b = Seq::new(out@.len(), |i: int| out@[i]@);
        let t = &tools[j];
        push_line(out, two("    - ", t.name.as_str()));
        let desc = match &t.description {
            Some(d) => two("      ", d.as_str()),
            None => two("      ", "(no description)"),
        };
        push_line(out, desc);
        push_line(out, String::new());
        proof {
            let tk = tools@.take(j as int + 1);
            assert(tk.drop_last() =~= tools@.take(j as int));
            assert(tk.last() == tools@[j as int]);
            assert(Seq::new(out@.len(), |i: int| out@[i]@) =~= start + server_block(name@, tk));
        }
        j = j + 1;
    }
    proof {
        assert(tools@.take(tools@.len() as int) =~= tools@);
    }
}

/// The lines the `tools` command prints (its plain-text form).
pub fn tools_report(servers: &Vec<(String, Vec<McpToolInfo>)>) -> (res: Vec<String>)
    ensures
        Seq::new(res@.len(), |i: int| res@[i]@) == tools_report_spec(servers@),
{
    let mut out: Vec<String> = Vec::new();
    push_line(&mut out, "Available tools from MCP servers:".to_owned());
    push_line(&mut out, String::new());
    let ghost head = Seq::new(out@.len(), |i: int| out@[i]@);
    proof {
        assert(head =~= seq!["Available tools from MCP servers:"@, Seq::<char>::empty()]);
    }
    let mut k: usize = 0;
    while k < servers.len()
        invariant
            k <= servers@.len(),
            Seq::new(out@.len(), |i: int| out@[i]@) == head + server_blocks(servers@, k as nat),
        decreases servers@.len() - k,
    {
        let ghost b = Seq::new(out@.len(), |i: int| out@[i]@);
        push_server(&mut out, &servers[k].0, &servers[k].1);
        proof {
            assert(Seq::new(out@.len(), |i: int| out@[i]@) =~= head + server_blocks(servers@, (k + 1) as nat));
        }
        k = k + 1;
    }
    push_line(&mut out, "Copy tool names into agents.yaml → permitted_actions to grant access.".to_owned());
    proof {
        assert(Seq::new(out@.len(), |i: int| out@[i]@) =~= tools_report_spec(servers@));
    }
    out
}

/// Lowercase hexadecimal digits of `n`.
pub open spec fn hex_digits(n: nat) -> Seq<char>
    decreases n,
{
    if n < 16 {
        seq![digit_char(n)]
    } else {
        hex_digits(n / 16).push(digit_char(n % 16))
    }
}

/// `s` left-padded with zeros to `width` characters.
pub open spec fn zero_padded(s: Seq<char>, width: nat) -> Seq<char> {
    if s.len() >= width {
        s
    } else {
        Seq::new((width - s.len()) as nat, |i: int| '0') + s
    }
}

/// Characters of a generated policy store identifier.
pub const STORE_ID_WIDTH: usize = 24;

/// A policy store identifier from an instant: its lowercase hexadecimal
/// form, left-padded with zeros to 24 digits.
pub fn hex_store_id(nanos: u128) -> (res: String)
    ensures
        res@ == zero_padded(hex_digits(nanos as nat), STORE_ID_WIDTH as nat),
{
    let mut digits: Vec<char> = Vec::new();
    let mut n: u128 = nanos;
    // Digits come out least significant first.
    loop
        invariant_except_break
            hex_digits(nanos as nat) == hex_digits(n as nat) + digits@.reverse(),
        ensures
            hex_digits(nanos as nat) == digits@.reverse(),
        decreases n,
    {
        let d = (n % 16) as u64;
        let c = crate::sessions::base36_digit(d);
        let ghost before = digits@;
        digits.push(c);
        proof {
            assert(digits@.reverse() =~= seq![c] + before.reverse());
        }
        if n < 16 {
            proof {
                assert(hex_digits(n as nat) == seq![c]);
            }
            break;
        }
        proof {
            assert(hex_digits(n as nat) == hex_digits((n / 16) as nat).push(digit_char((n % 16) as nat)));
            assert(hex_digits((n / 16) as nat).push(c) + before.reverse() =~= hex_digits((n / 16) as nat) + (
            seq![c] + before.reverse()));
        }
        n = n / 16;
    }
    let total = digits.len();
    let mut out = String::new();
    let mut p: usize = total;
    while p < STORE_ID_WIDTH
        invariant
            total == digits@.len(),
            total <= p,
            p <= STORE_ID_WIDTH || p == total,
            out@ == Seq::new((p - total) as nat, |i: int| '0'),
        decreases STORE_ID_WIDTH - p,
    {
        crate::text::push_char(&mut out, '0');
        p = p + 1;
        proof {
            assert(out@ =~= Seq::new((p - total) as nat, |i: int| '0'));
        }
    }
    let ghost pad = out@;
    let mut q: usize = total;
    while q > 0
        invariant
            q <= total,
            total == digits@.len(),
            out@ == pad + digits@.reverse().take((total - q) as int),
        decreases q,
    {
        q = q - 1;
        crate::text::push_char(&mut out, digits[q]);
        proof {
            assert(digits@.reverse()[(total - q - 1) as int] == digits@[q as int]);
            assert(out@ =~= pad + digits@.reverse().take((total - q) as int));
        }
    }
    proof {
        assert(digits@.reverse().take(total as int) =~= digits@.reverse());
        assert(out@ =~= zero_padded(hex_digits(nanos as nat), STORE_ID_WIDTH as nat));
    }
    out
}

} // verus!
