//! The language-model client seen by the generator, and a scripted client
//! that answers from a list.

use vstd::prelude::*;

verus! {

/// One exchange with the model: the system message, the user message and
/// the answer.
pub type Exchange = (Seq<char>, Seq<char>, Result<Seq<char>, Seq<char>>);

/// An answer of the model as plain text: the completion, or the error.
pub open spec fn answer_view(r: Result<String, String>) -> Result<Seq<char>, Seq<char>> {
    match r {
        Ok(t) => Ok(t@),
        Err(e) => Err(e@),
    }
}

/// Completes one prompt: a system message and a user message.
pub trait LlmClient {
    /// Every exchange so far, oldest first: the system message, the user
    /// message and the answer.
    spec fn exchanges(&self) -> Seq<Exchange>;

    /// Sends one prompt; the exchange is recorded whatever comes back.
    fn complete(&mut self, system: &str, user: &str) -> (res: Result<String, String>)
        ensures
            final(self).exchanges() == old(self).exchanges().push((system@, user@, answer_view(res))),
    ;
}
/// A client that returns canned responses in order and records every call.
pub struct FakeLlmClient {
    responses: Vec<String>,
    calls: Vec<(String, String)>,
    log: Ghost<Seq<Exchange>>,
}

impl FakeLlmClient {
    /// The responses not yet given, next first.
    pub closed spec fn queue(&self) -> Seq<Seq<char>> {
        Seq::new(self.responses@.len(), |i: int| self.responses@[i]@)
    }

    /// The exchanges so far, oldest first.
    pub closed spec fn exchange_log(&self) -> Seq<Exchange> {
        self.log@
    }

    /// The calls made so far, oldest first.
    pub closed spec fn call_log(&self) -> Seq<(Seq<char>, Seq<char>)> {
        Seq::new(self.calls@.len(), |i: int| (self.calls@[i].0@, self.calls@[i].1@))
    }

    pub fn new(responses: Vec<&str>) -> (res: Self)
        ensures
            res.queue() == Seq::new(responses@.len(), |i: int| responses@[i]@),
            res.call_log() == Seq::<(Seq<char>, Seq<char>)>::empty(),
            res.exchange_log().len() == 0,
    {
        let mut rs: Vec<String> = Vec::new();
        let mut i: usize = 0;
        while i < responses.len()
            invariant
                i <= responses@.len(),
                Seq::new(rs@.len(), |k: int| rs@[k]@) == Seq::new(i as nat, |k: int| responses@[k]@),
            decreases responses@.len() - i,
        {
            let ghost before = Seq::new(rs@.len(), |k: int| rs@[k]@);
            rs.push(responses[i].to_owned());
            proof {
                assert(Seq::new(rs@.len(), |k: int| rs@[k]@) =~= before.push(responses@[i as int]@));
                assert(Seq::new((i + 1) as nat, |k: int| responses@[k]@) =~= Seq::new(
                    i as nat,
                    |k: int| responses@[k]@,
                ).push(responses@[i as int]@));
            }
            i = i + 1;
        }
        let res = FakeLlmClient { responses: rs, calls: Vec::new(), log: Ghost(Seq::empty()) };
        proof {
            assert(res.call_log() =~= Seq::<(Seq<char>, Seq<char>)>::empty());
        }
        res
    }

    /// The calls made so far.
    pub fn calls(&self) -> (res: Vec<(String, String)>)
        ensures
            Seq::new(res@.len(), |i: int| (res@[i].0@, res@[i].1@)) == self.call_log(),
    {
        let mut out: Vec<(String, String)> = Vec::new();
        let mut i: usize = 0;
        while i < self.calls.len()
            invariant
                i <= self.calls@.len(),
                Seq::new(out@.len(), |k: int| (out@[k].0@, out@[k].1@)) == self.call_log().take(i as int),
            decreases self.calls@.len() - i,
        {
            let ghost before = Seq::new(out@.len(), |k: int| (out@[k].0@, out@[k].1@));
            out.push((self.calls[i].0.clone(), self.calls[i].1.clone()));
            proof {
                assert(Seq::new(out@.len(), |k: int| (out@[k].0@, out@[k].1@)) =~= before.push(self.call_log()[i as int]));
                assert(self.call_log().take(i as int + 1) =~= self.call_log().take(i as int).push(self.call_log()[i as int]));
            }
            i = i + 1;
        }
        proof {
            assert(self.call_log().take(self.calls@.len() as int) =~= self.call_log());
        }
        out
    }

    /// Records the call, then gives the next canned response, or fails
    /// when none is left.
    pub fn complete(&mut self, system: &str, user: &str) -> (res: Result<String, String>)
        ensures
            final(self).call_log() == old(self).call_log().push((system@, user@)),
            final(self).exchange_log() == old(self).exchange_log().push((system@, user@, answer_view(res))),
            old(self).queue().len() > 0 ==> (res matches Ok(r) && r@ == old(self).queue()[0]
                && final(self).queue() == old(self).queue().drop_first()),
            old(self).queue().len() == 0 ==> (res matches Err(e) && e@ == "FakeLlmClient: no more canned responses"@
                && final(self).queue() == old(self).queue()),
    {
        let ghost q = self.queue();
        let ghost c = self.call_log();
        self.calls.push((system.to_owned(), user.to_owned()));
        proof {
            assert(self.call_log() =~= c.push((system@, user@)));
        }
        if self.responses.len() == 0 {
            let res: Result<String, String> = Err("FakeLlmClient: no more canned responses".to_owned());
            self.log = Ghost(self.log@.push((system@, user@, answer_view(res))));
            return res;
        }
        let r = self.responses.remove(0);
        proof {
            assert(self.queue() =~= q.drop_first());
        }
        let res: Result<String, String> = Ok(r);
        self.log = Ghost(self.log@.push((system@, user@, answer_view(res))));
        res
    }
}

impl LlmClient for FakeLlmClient {
    closed spec fn exchanges(&self) -> Seq<Exchange> {
        self.log@
    }

    fn complete(&mut self, system: &str, user: &str) -> (res: Result<String, String>)
        ensures
            final(self).call_log() == old(self).call_log().push((system@, user@)),
            old(self).queue().len() > 0 ==> (res matches Ok(r) && r@ == old(self).queue()[0]
                && final(self).queue() == old(self).queue().drop_first()),
            old(self).queue().len() == 0 ==> (res matches Err(e) && e@ == "FakeLlmClient: no more canned responses"@
                && final(self).queue() == old(self).queue()),
    {
        FakeLlmClient::complete(self, system, user)
    }
}

} // verus!
