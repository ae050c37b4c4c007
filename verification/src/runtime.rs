//! Runtime assembly: the stores, the approval gateway and the local approver
//! identity, built from configuration.

use vstd::prelude::*;
use crate::agents::{AgentPlan, AuditLog};
use crate::authz::{AuthorizationDecision, AuthorizationResult};
use crate::authz_hook::{ToolCallAction, recorded_by, tool_call_spec};
use crate::approvals::gateway::ApprovalGateway;
use crate::approvals::registry::InMemoryActionRegistry;
use crate::authz_hook::AuthzBackend;
use crate::inbox::SystemMsgView;
use crate::notifications::types::NotificationIdGenerator;
use crate::persistence::SessionEvent;
use crate::persistence::memory::{InMemoryInbox, InMemorySessionStore};
use crate::persistence::notifications::InMemoryNotificationStore;
use crate::persistence::tickets::InMemoryTicketStore;
use crate::sessions::SessionView;
use crate::approvals::types::TicketView;
use crate::authz::AuditEntry;
use crate::notifications::types::Notification;
use crate::text::{to_chars, trim, trim_spec};
use vstd::utf8::encode_utf8;

verus! {

/// Pieces of `s` between commas (empty pieces included), before trimming.
pub open spec fn comma_pieces(s: Seq<char>) -> Seq<Seq<char>>
    decreases s.len(),
{
    if s.len() == 0 {
        seq![Seq::empty()]
    } else {
        let ps = comma_pieces(s.drop_last());
        if s.last() == ',' {
            ps.push(Seq::empty())
        } else {
            ps.update(ps.len() - 1, ps.last().push(s.last()))
        }
    }
}

proof fn lemma_comma_pieces_nonempty(s: Seq<char>)
    ensures
        comma_pieces(s).len() >= 1,
    decreases s.len(),
{
    if s.len() > 0 {
        lemma_comma_pieces_nonempty(s.drop_last());
    }
}

/// The roles of a comma-separated list, each trimmed (as `split(',')` then
/// `trim` gives them: an empty list gives one empty role).
pub fn split_roles(s: &str) -> (res: Vec<String>)
    ensures
        Seq::new(res@.len(), |i: int| res@[i]@) == Seq::new(
            comma_pieces(s@).len(),
            |i: int| trim_spec(comma_pieces(s@)[i]),
        ),
{
    let cs = to_chars(s);
    let mut pieces: Vec<String> = Vec::new();
    let mut cur = String::new();
    let mut i: usize = 0;
    while i < cs.len()
        invariant
            cs@ == s@,
            i <= cs@.len(),
            Seq::new(pieces@.len(), |k: int| pieces@[k]@).push(cur@) == comma_pieces(s@.take(i as int)),
        decreases cs@.len() - i,
    {
        let ghost before = Seq::new(pieces@.len(), |k: int| pieces@[k]@);
        proof {
            assert(s@.take(i as int + 1).drop_last() =~= s@.take(i as int));
            lemma_comma_pieces_nonempty(s@.take(i as int));
        }
        if cs[i] == ',' {
            pieces.push(cur);
            cur = String::new();
            proof {
                assert(Seq::new(pieces@.len(), |k: int| pieces@[k]@) =~= before.push(pieces@[pieces@.len() - 1]@));
                assert(Seq::new(pieces@.len(), |k: int| pieces@[k]@).push(cur@) =~= comma_pieces(
                    s@.take(i as int + 1),
                ));
            }
        } else {
            crate::text::push_char(&mut cur, cs[i]);
            proof {
                assert(Seq::new(pieces@.len(), |k: int| pieces@[k]@).push(cur@) =~= comma_pieces(
                    s@.take(i as int + 1),
                ));
            }
        }
        i = i + 1;
    }
    proof {
        assert(s@.take(cs@.len() as int) =~= s@);
    }
    pieces.push(cur);
    let ghost raw = Seq::new(pieces@.len(), |k: int| pieces@[k]@);
    proof {
        assert(raw =~= comma_pieces(s@));
    }
    let mut out: Vec<String> = Vec::new();
    let mut j: usize = 0;
    while j < pieces.len()
        invariant
            j <= pieces@.len(),
            raw == Seq::new(pieces@.len(), |k: int| pieces@[k]@),
            Seq::new(out@.len(), |k: int| out@[k]@) == Seq::new(j as nat, |k: int| trim_spec(raw[k])),
        decreases pieces@.len() - j,
    {
        let ghost b = Seq::new(out@.len(), |k: int| out@[k]@);
        out.push(trim(pieces[j].as_str()));
        proof {
            assert(Seq::new(out@.len(), |k: int| out@[k]@) =~= b.push(trim_spec(raw[j as int])));
            assert(Seq::new((j + 1) as nat, |k: int| trim_spec(raw[k])) =~= Seq::new(
                j as nat,
                |k: int| trim_spec(raw[k]),
            ).push(trim_spec(raw[j as int])));
        }
        j = j + 1;
    }
    out
}

/// The assembled runtime: the approval gateway (which owns the ticket,
/// session and inbox stores), the notification store and its identifier
/// generator, the action registry, the audit log and the local approver.
pub struct Runtime {
    pub gateway: ApprovalGateway,
    pub notification_store: InMemoryNotificationStore,
    pub notification_idgen: NotificationIdGenerator,
    pub action_registry: InMemoryActionRegistry,
    pub audit_log: AuditLog,
    pub hmac_key: Vec<u8>,
    pub local_key_id: String,
    pub local_roles: Vec<String>,
    pub authz_backend: AuthzBackend,
}

/// Builds a runtime over empty in-memory stores: the approver key is the
/// UTF-8 bytes of `approver_hmac_key`, and the local approver's roles are the
/// trimmed pieces of the comma-separated `local_roles`.
pub fn build_runtime(
    approver_hmac_key: &str,
    local_key_id: &str,
    local_roles: &str,
    authz_backend: AuthzBackend,
) -> (res: Runtime)
    ensures
        res.gateway.wf(),
        res.gateway.tickets.tickets() == Seq::<TicketView>::empty(),
        res.gateway.sessions.sessions() == Seq::<SessionView>::empty(),
        res.gateway.sessions.events() == Seq::<(Seq<char>, SessionEvent)>::empty(),
        forall|sid: Seq<char>| #[trigger] res.gateway.inbox.queue(sid) == Seq::<SystemMsgView>::empty(),
        res.gateway.key() == encode_utf8(approver_hmac_key@),
        res.hmac_key@ == encode_utf8(approver_hmac_key@),
        res.notification_store.all() == Seq::<Notification>::empty(),
        res.notification_idgen.next_counter() == 0,
        res.action_registry.wf(),
        res.action_registry.kinds() == Seq::<Seq<char>>::empty(),
        res.audit_log.log() == Seq::<AuditEntry>::empty(),
        res.local_key_id@ == local_key_id@,
        Seq::new(res.local_roles@.len(), |i: int| res.local_roles@[i]@) == Seq::new(
            comma_pieces(local_roles@).len(),
            |i: int| trim_spec(comma_pieces(local_roles@)[i]),
        ),
        res.authz_backend == authz_backend,
{
    let hmac_key = vstd::slice::slice_to_vec(approver_hmac_key.as_bytes());
    let gateway = ApprovalGateway::new(
        InMemoryTicketStore::new(),
        InMemorySessionStore::new(),
        InMemoryInbox::new(),
        vstd::slice::slice_to_vec(approver_hmac_key.as_bytes()),
    );
    Runtime {
        gateway,
        notification_store: InMemoryNotificationStore::new(),
        notification_idgen: NotificationIdGenerator::new(),
        action_registry: InMemoryActionRegistry::new(),
        audit_log: AuditLog::new(),
        hmac_key,
        local_key_id: local_key_id.to_owned(),
        local_roles: split_roles(local_roles),
        authz_backend,
    }
}

impl Runtime {
    /// The first half of the check of a call of `tool_name` by `agent`: the
    /// agent's hook decides, and its decision goes to the runtime's audit
    /// log, the one log that every agent of the runtime writes to. Nothing
    /// else of the runtime changes.
    pub fn check_tool_call(&mut self, agent: &AgentPlan, tool_name: &str, args: &str) -> (res: ToolCallAction)
        ensures
            tool_call_spec(agent.hook, tool_name@, old(self).audit_log.log(), final(self).audit_log.log(), res),
            final(self).gateway == old(self).gateway,
            final(self).notification_store == old(self).notification_store,
            final(self).notification_idgen == old(self).notification_idgen,
            final(self).action_registry == old(self).action_registry,
            final(self).hmac_key == old(self).hmac_key,
            final(self).local_key_id == old(self).local_key_id,
            final(self).local_roles == old(self).local_roles,
            final(self).authz_backend == old(self).authz_backend,
    {
        agent.hook.on_tool_call(&mut self.audit_log, tool_name, args)
    }

    /// The second half under the policy engine: `agent`'s hook records the
    /// engine's decision in the runtime's audit log and says what to do with
    /// the call. Nothing else of the runtime changes.
    pub fn finish_policy_decision(
        &mut self,
        agent: &AgentPlan,
        tool_name: &str,
        args: &str,
        result: AuthorizationResult,
    ) -> (res: ToolCallAction)
        ensures
            result.decision == AuthorizationDecision::Allow ==> res == ToolCallAction::Continue,
            result.decision == AuthorizationDecision::Deny ==> (res matches ToolCallAction::Skip(r) && (match result.reason {
                Some(x) => r@ == x@,
                None => r@ == "denied by policy"@,
            })),
            recorded_by(agent.hook, tool_name@, old(self).audit_log.log(), final(self).audit_log.log()),
            final(self).audit_log.log().last().decision == result.decision,
            final(self).audit_log.log().last().denial_reason == result.reason,
            final(self).gateway == old(self).gateway,
            final(self).notification_store == old(self).notification_store,
            final(self).notification_idgen == old(self).notification_idgen,
            final(self).action_registry == old(self).action_registry,
            final(self).hmac_key == old(self).hmac_key,
            final(self).local_key_id == old(self).local_key_id,
            final(self).local_roles == old(self).local_roles,
            final(self).authz_backend == old(self).authz_backend,
    {
        agent.hook.finish_policy_decision(&mut self.audit_log, tool_name, args, result)
    }
}

} // verus!
