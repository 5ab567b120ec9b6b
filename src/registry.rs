//! The registry of published leaderboards: opaque tokens under which a private
//! leaderboard can be viewed, each holding the group it shows and the session
//! used to fetch it.

use vstd::prelude::*;

verus! {

/// Length of a public token.
pub const TOKEN_LEN: usize = 16;

/// Fresh tokens drawn before publishing gives up.
pub const TOKEN_ATTEMPTS: usize = 64;

/// A published leaderboard.
#[derive(Clone, Debug)]
pub struct PublicLeaderboard {
    pub token: String,
    pub id: String,
    pub session: String,
}

/// What a published leaderboard holds, as text.
pub struct RecordView {
    pub token: Seq<char>,
    pub id: Seq<char>,
    pub session: Seq<char>,
}

/// Every published leaderboard, tokens pairwise distinct.
#[derive(Clone, Debug)]
pub struct Registry {
    pub records: Vec<PublicLeaderboard>,
}

#[derive(Clone, Copy, Debug, PartialEq, Eq, Structural)]
pub enum RegistryError {
    /// No record holds the token.
    NotFound,
    /// Every token drawn was taken already.
    TokenSpaceExhausted,
}

impl View for PublicLeaderboard {
    type V = RecordView;

    open spec fn view(&self) -> RecordView {
        RecordView { token: self.token@, id: self.id@, session: self.session@ }
    }
}

pub open spec fn is_token_char(c: char) -> bool {
    ('0' <= c && c <= '9') || ('A' <= c && c <= 'Z') || ('a' <= c && c <= 'z')
}

/// Sixteen ASCII letters and digits.
pub open spec fn token_shape(t: Seq<char>) -> bool {
    t.len() == TOKEN_LEN && forall|i: int| 0 <= i < t.len() ==> is_token_char(#[trigger] t[i])
}

pub open spec fn has_token(s: Seq<RecordView>, token: Seq<char>) -> bool {
    exists|i: int| 0 <= i < s.len() && (#[trigger] s[i]).token == token
}

pub open spec fn has_group(s: Seq<RecordView>, id: Seq<char>) -> bool {
    exists|i: int| 0 <= i < s.len() && (#[trigger] s[i]).id == id
}

/// `k` is the first record of group `id`.
pub open spec fn first_of_group(s: Seq<RecordView>, id: Seq<char>, k: int) -> bool {
    0 <= k < s.len() && s[k].id == id && forall|j: int| 0 <= j < k ==> (#[trigger] s[j]).id != id
}

pub open spec fn tokens_distinct(s: Seq<RecordView>) -> bool {
    forall|i: int, j: int| 0 <= i < s.len() && 0 <= j < s.len() && i != j ==> (#[trigger] s[i]).token != (#[trigger] s[j]).token
}

pub open spec fn with_session(r: RecordView, session: Seq<char>) -> RecordView {
    RecordView { token: r.token, id: r.id, session }
}

pub open spec fn text_result(r: Result<String, RegistryError>) -> Result<Seq<char>, RegistryError> {
    match r {
        Ok(s) => Ok(s@),
        Err(e) => Err(e),
    }
}

/// What publishing group `id` with `session` does: a group already published
/// keeps its first record's token and takes the new session; otherwise a new
/// record under an unused well-shaped token is added, unless every token drawn
/// was taken (which needs a record to collide with), which changes nothing.
pub open spec fn publish_post(
    s: Seq<RecordView>,
    id: Seq<char>,
    session: Seq<char>,
    r: Result<Seq<char>, RegistryError>,
    s2: Seq<RecordView>,
) -> bool {
    if has_group(s, id) {
        exists|k: int|
            first_of_group(s, id, k) && r == Ok::<Seq<char>, RegistryError>(s[k].token) && s2 == s.update(
                k,
                with_session(s[k], session),
            )
    } else {
        match r {
            Ok(t) => token_shape(t) && !has_token(s, t) && s2 == s.push(
                RecordView { token: t, id, session },
            ),
            Err(e) => e == RegistryError::TokenSpaceExhausted && s2 == s && s.len() > 0,
        }
    }
}

/// What renewing the record of `token` with `session` does.
pub open spec fn renew_post(
    s: Seq<RecordView>,
    token: Seq<char>,
    session: Seq<char>,
    r: Result<(), RegistryError>,
    s2: Seq<RecordView>,
) -> bool {
    if has_token(s, token) {
        r is Ok && exists|k: int|
            0 <= k < s.len() && s[k].token == token && s2 == s.update(k, with_session(s[k], session))
    } else {
        r == Err::<(), RegistryError>(RegistryError::NotFound) && s2 == s
    }
}

/// Relies on rand 0.8: `Alphanumeric.sample_string(rng, len)` appends `len`
/// characters drawn from A-Z, a-z and 0-9, here with the thread-local
/// generator.
#[verifier::external_body]
fn random_alphanumeric(len: usize) -> (r: String)
    ensures
        r@.len() == len,
        forall|i: int| 0 <= i < r@.len() ==> is_token_char(#[trigger] r@[i]),
{
    rand::distributions::DistString::sample_string(
        &rand::distributions::Alphanumeric,
        &mut rand::thread_rng(),
        len,
    )
}

impl PublicLeaderboard {
    pub fn new(token: &str, id: &str, session: &str) -> (r: PublicLeaderboard)
        ensures
            r@ == (RecordView { token: token@, id: id@, session: session@ }),
    {
        PublicLeaderboard {
            token: String::from_str(token),
            id: String::from_str(id),
            session: String::from_str(session),
        }
    }
}

impl Registry {
    pub open spec fn view(&self) -> Seq<RecordView> {
        self.records@.map_values(|r: PublicLeaderboard| r@)
    }

    pub open spec fn wf(&self) -> bool {
        tokens_distinct(self.view())
    }

    pub fn new() -> (r: Registry)
        ensures
            r.wf(),
            r.view() == Seq::<RecordView>::empty(),
    {
        let r = Registry { records: Vec::new() };
        assert(r.view() =~= Seq::<RecordView>::empty());
        r
    }

    /// Builds a registry from stored records, refusing (`None`) a list in which
    /// two records share a token.
    pub fn from_records(records: Vec<PublicLeaderboard>) -> (r: Option<Registry>)
        ensures
            r.is_some() == tokens_distinct(records@.map_values(|x: PublicLeaderboard| x@)),
            r.is_some() ==> r.unwrap().records@ == records@,
    {
        let reg = Registry { records };
        let mut i: usize = 0;
        while i < reg.records.len()
            invariant
                0 <= i <= reg.records@.len(),
                reg.records@ == records@,
                forall|a: int, b: int| 0 <= a < i && 0 <= b < reg.records@.len() && a != b
                    ==> (#[trigger] reg.view()[a]).token != (#[trigger] reg.view()[b]).token,
            decreases reg.records@.len() - i,
        {
            let mut j: usize = 0;
            while j < reg.records.len()
                invariant
                    0 <= i < reg.records@.len(),
                    0 <= j <= reg.records@.len(),
                    reg.records@ == records@,
                    forall|a: int, b: int| 0 <= a < i && 0 <= b < reg.records@.len() && a != b
                        ==> (#[trigger] reg.view()[a]).token != (#[trigger] reg.view()[b]).token,
                    forall|b: int| 0 <= b < j && b != i ==> reg.view()[i as int].token != (#[trigger] reg.view()[b]).token,
                decreases reg.records@.len() - j,
            {
                if j != i && reg.records[i].token == reg.records[j].token {
                    assert(reg.view()[i as int].token == reg.view()[j as int].token);
                    return None;
                }
                j += 1;
            }
            i += 1;
        }
        assert(reg.view() == records@.map_values(|x: PublicLeaderboard| x@));
        Some(reg)
    }

    /// Index of the first record of group `id`.
    pub fn find_pub_leaderboard(&self, id: &String) -> (r: Option<usize>)
        ensures
            r.is_some() ==> first_of_group(self.view(), id@, r.unwrap() as int),
            r.is_none() ==> !has_group(self.view(), id@),
    {
        let mut i: usize = 0;
        while i < self.records.len()
            invariant
                0 <= i <= self.records@.len(),
                forall|j: int| 0 <= j < i ==> (#[trigger] self.view()[j]).id != id@,
            decreases self.records@.len() - i,
        {
            if self.records[i].id == *id {
                return Some(i);
            }
            i += 1;
        }
        None
    }

    /// Index of the record of `token`.
    pub fn resolve(&self, token: &String) -> (r: Option<usize>)
        ensures
            r.is_some() ==> r.unwrap() < self.view().len() && self.view()[r.unwrap() as int].token == token@,
            r.is_none() ==> !has_token(self.view(), token@),
    {
        let mut i: usize = 0;
        while i < self.records.len()
            invariant
                0 <= i <= self.records@.len(),
                forall|j: int| 0 <= j < i ==> (#[trigger] self.view()[j]).token != token@,
            decreases self.records@.len() - i,
        {
            if self.records[i].token == *token {
                return Some(i);
            }
            i += 1;
        }
        None
    }

    /// Whether a record holds `token`.
    pub fn pub_leaderboard_exists(&self, token: &String) -> (r: bool)
        ensures
            r == has_token(self.view(), token@),
    {
        self.resolve(token).is_some()
    }

    fn set_session(&mut self, k: usize, session: String)
        requires
            k < old(self).records@.len(),
        ensures
            final(self).view() == old(self).view().update(k as int, with_session(old(self).view()[k as int], session@)),
    {
        self.records[k].session = session;
        assert(self.view() =~= old(self).view().update(k as int, with_session(old(self).view()[k as int], session@)));
    }

    /// Adds a record of the unpublished group `id` under the drawn token
    /// `candidate`, if no record holds that token; reports whether it did.
    pub fn publish_with_token(&mut self, candidate: String, id: &str, session: &str) -> (r: bool)
        requires
            old(self).wf(),
            !has_group(old(self).view(), id@),
            token_shape(candidate@),
        ensures
            final(self).wf(),
            r == !has_token(old(self).view(), candidate@),
            r ==> final(self).view() == old(self).view().push(
                RecordView { token: candidate@, id: id@, session: session@ },
            ),
            !r ==> final(self).view() == old(self).view(),
    {
        if self.pub_leaderboard_exists(&candidate) {
            return false;
        }
        let ghost before = self.view();
        let ghost token = candidate@;
        self.records.push(
            PublicLeaderboard { token: candidate, id: String::from_str(id), session: String::from_str(session) },
        );
        assert(self.view() =~= before.push(RecordView { token, id: id@, session: session@ }));
        true
    }

    /// Publishes group `id` with `session`, returning its token. A group
    /// published before keeps its token; a new one gets a fresh random token
    /// that no record holds, drawing again on a collision, and fails only
    /// after `TOKEN_ATTEMPTS` drawn tokens were all taken.
    pub fn publish(&mut self, id: &str, session: &str) -> (r: Result<String, RegistryError>)
        requires
            old(self).wf(),
        ensures
            final(self).wf(),
            publish_post(old(self).view(), id@, session@, text_result(r), final(self).view()),
    {
        let group = String::from_str(id);
        match self.find_pub_leaderboard(&group) {
            Some(k) => {
                let token = self.records[k].token.clone();
                self.set_session(k, String::from_str(session));
                return Ok(token);
            },
            None => {},
        }
        let mut attempt: usize = 0;
        while attempt < TOKEN_ATTEMPTS
            invariant
                self.wf(),
                self.view() == old(self).view(),
                !has_group(self.view(), id@),
                attempt > 0 ==> self.view().len() > 0,
            decreases TOKEN_ATTEMPTS - attempt,
        {
            let candidate = random_alphanumeric(TOKEN_LEN);
            let token = candidate.clone();
            if self.publish_with_token(candidate, id, session) {
                return Ok(token);
            }
            assert(has_token(self.view(), token@));
            attempt += 1;
        }
        Err(RegistryError::TokenSpaceExhausted)
    }

    /// Replaces the session of the record of `token`; `NotFound`, with nothing
    /// changed, when no record holds it.
    pub fn renew(&mut self, token: &str, session: &str) -> (r: Result<(), RegistryError>)
        requires
            old(self).wf(),
        ensures
            final(self).wf(),
            renew_post(old(self).view(), token@, session@, r, final(self).view()),
    {
        let token = String::from_str(token);
        match self.resolve(&token) {
            Some(k) => {
                self.set_session(k, String::from_str(session));
                Ok(())
            },
            None => Err(RegistryError::NotFound),
        }
    }
}

/// Publishing a group twice returns the same token both times, and the record
/// then holds the session of the later call.
pub proof fn lemma_publish_twice(
    s0: Seq<RecordView>,
    s1: Seq<RecordView>,
    s2: Seq<RecordView>,
    id: Seq<char>,
    session1: Seq<char>,
    session2: Seq<char>,
    r1: Result<Seq<char>, RegistryError>,
    r2: Result<Seq<char>, RegistryError>,
)
    requires
        publish_post(s0, id, session1, r1, s1),
        r1 is Ok,
        publish_post(s1, id, session2, r2, s2),
    ensures
        r2 == r1,
        exists|k: int| first_of_group(s2, id, k) && s2[k].token == r1->Ok_0 && s2[k].session == session2,
{
    let k1 = if has_group(s0, id) {
        choose|k: int| first_of_group(s0, id, k) && r1 == Ok::<Seq<char>, RegistryError>(s0[k].token) && s1 == s0.update(k, with_session(s0[k], session1))
    } else {
        s0.len() as int
    };
    assert(first_of_group(s1, id, k1));
    assert(has_group(s1, id));
    let k2 = choose|k: int| first_of_group(s1, id, k) && r2 == Ok::<Seq<char>, RegistryError>(s1[k].token) && s2 == s1.update(k, with_session(s1[k], session2));
    if k2 < k1 {
        assert(s1[k2].id != id);
    } else if k1 < k2 {
        assert(s1[k1].id != id);
    }
    assert(first_of_group(s2, id, k2));
}

/// Publishing never makes two records share a token: the tokens stay pairwise
/// distinct over any run of publishes.
pub proof fn lemma_publish_keeps_tokens_distinct(
    s: Seq<RecordView>,
    id: Seq<char>,
    session: Seq<char>,
    r: Result<Seq<char>, RegistryError>,
    s2: Seq<RecordView>,
)
    requires
        tokens_distinct(s),
        publish_post(s, id, session, r, s2),
    ensures
        tokens_distinct(s2),
{
    if has_group(s, id) {
        let k = choose|k: int|
            first_of_group(s, id, k) && r == Ok::<Seq<char>, RegistryError>(s[k].token) && s2 == s.update(k, with_session(s[k], session));
        assert forall|i: int, j: int| 0 <= i < s2.len() && 0 <= j < s2.len() && i != j implies (#[trigger] s2[i]).token != (#[trigger] s2[j]).token by {
            assert(s2[i].token == s[i].token);
            assert(s2[j].token == s[j].token);
        }
    } else if r is Ok {
        assert forall|i: int, j: int| 0 <= i < s2.len() && 0 <= j < s2.len() && i != j implies (#[trigger] s2[i]).token != (#[trigger] s2[j]).token by {
            if i == s.len() as int {
                assert(!(s[j].token == r->Ok_0));
            } else if j == s.len() as int {
                assert(!(s[i].token == r->Ok_0));
            }
        }
    }
}

/// A run of successful publishes of new, pairwise distinct groups: `states[i]`
/// is the registry before call `i`, which publishes `ids[i]` with
/// `sessions[i]` and returns `results[i]`.
pub open spec fn publish_run(
    states: Seq<Seq<RecordView>>,
    ids: Seq<Seq<char>>,
    sessions: Seq<Seq<char>>,
    results: Seq<Result<Seq<char>, RegistryError>>,
) -> bool {
    &&& states.len() == ids.len() + 1
    &&& sessions.len() == ids.len()
    &&& results.len() == ids.len()
    &&& forall|i: int| 0 <= i < ids.len() ==> publish_post(
        #[trigger] states[i],
        ids[i],
        sessions[i],
        results[i],
        states[i + 1],
    )
    &&& forall|i: int| 0 <= i < ids.len() ==> (#[trigger] results[i]) is Ok
    &&& forall|i: int| 0 <= i < ids.len() ==> !has_group(states[0], #[trigger] ids[i])
    &&& forall|i: int, j: int| 0 <= i < ids.len() && 0 <= j < ids.len() && i != j ==> #[trigger] ids[i] != #[trigger] ids[j]
}

/// The first `k` calls of a run appended one record each to the starting
/// registry, and the tokens stayed distinct.
proof fn lemma_publish_run_prefix(
    states: Seq<Seq<RecordView>>,
    ids: Seq<Seq<char>>,
    sessions: Seq<Seq<char>>,
    results: Seq<Result<Seq<char>, RegistryError>>,
    k: int,
)
    requires
        publish_run(states, ids, sessions, results),
        tokens_distinct(states[0]),
        0 <= k <= ids.len(),
    ensures
        tokens_distinct(states[k]),
        states[k].len() == states[0].len() + k,
        forall|i: int| 0 <= i < states[0].len() ==> #[trigger] states[k][i] == states[0][i],
        forall|i: int| 0 <= i < k ==> #[trigger] states[k][states[0].len() + i] == (RecordView {
            token: results[i]->Ok_0,
            id: ids[i],
            session: sessions[i],
        }),
    decreases k,
{
    if k > 0 {
        lemma_publish_run_prefix(states, ids, sessions, results, k - 1);
        let s = states[k - 1];
        let n0 = states[0].len();
        assert(publish_post(states[k - 1], ids[k - 1], sessions[k - 1], results[k - 1], states[k]));
        assert(results[k - 1] is Ok);
        assert(!has_group(s, ids[k - 1])) by {
            if has_group(s, ids[k - 1]) {
                let j = choose|j: int| 0 <= j < s.len() && (#[trigger] s[j]).id == ids[k - 1];
                if j < n0 {
                    assert(states[0][j] == s[j]);
                    assert(has_group(states[0], ids[k - 1]));
                } else {
                    assert(s[n0 + (j - n0)].id == ids[j - n0]);
                }
            }
        }
        lemma_publish_keeps_tokens_distinct(s, ids[k - 1], sessions[k - 1], results[k - 1], states[k]);
        assert forall|i: int| 0 <= i < k implies #[trigger] states[k][n0 + i] == (RecordView {
            token: results[i]->Ok_0,
            id: ids[i],
            session: sessions[i],
        }) by {
            if i < k - 1 {
                assert(states[k][n0 + i] == s[n0 + i]);
            }
        }
    }
}

/// Publishing new, pairwise distinct groups one after another appends one
/// record per call, in order, each under a token that no other record holds:
/// no two calls return the same token, and no returned token was held before.
pub proof fn lemma_publish_run(
    states: Seq<Seq<RecordView>>,
    ids: Seq<Seq<char>>,
    sessions: Seq<Seq<char>>,
    results: Seq<Result<Seq<char>, RegistryError>>,
)
    requires
        publish_run(states, ids, sessions, results),
        tokens_distinct(states[0]),
    ensures
        tokens_distinct(states[ids.len() as int]),
        states[ids.len() as int].len() == states[0].len() + ids.len(),
        forall|i: int| 0 <= i < ids.len() ==> #[trigger] states[ids.len() as int][states[0].len() + i] == (RecordView {
            token: results[i]->Ok_0,
            id: ids[i],
            session: sessions[i],
        }),
        forall|i: int, j: int|
            0 <= i < ids.len() && 0 <= j < ids.len() && i != j ==> (#[trigger] results[i])->Ok_0 != (#[trigger] results[j])->Ok_0,
        forall|i: int| 0 <= i < ids.len() ==> !has_token(states[0], (#[trigger] results[i])->Ok_0),
{
    let n = ids.len() as int;
    let n0 = states[0].len();
    lemma_publish_run_prefix(states, ids, sessions, results, n);
    let f = states[n];
    assert forall|i: int, j: int| 0 <= i < n && 0 <= j < n && i != j implies (#[trigger] results[i])->Ok_0 != (#[trigger] results[j])->Ok_0 by {
        assert(f[n0 + i].token == results[i]->Ok_0);
        assert(f[n0 + j].token == results[j]->Ok_0);
    }
    assert forall|i: int| 0 <= i < n implies !has_token(states[0], (#[trigger] results[i])->Ok_0) by {
        if has_token(states[0], results[i]->Ok_0) {
            let j = choose|j: int| 0 <= j < states[0].len() && (#[trigger] states[0][j]).token == results[i]->Ok_0;
            assert(f[j] == states[0][j]);
            assert(f[n0 + i].token == results[i]->Ok_0);
        }
    }
}

/// A renewal of a token that no record holds fails with `NotFound` and leaves
/// every record as it was.
pub proof fn lemma_renew_unknown(
    s: Seq<RecordView>,
    token: Seq<char>,
    session: Seq<char>,
    r: Result<(), RegistryError>,
    s2: Seq<RecordView>,
)
    requires
        !has_token(s, token),
        renew_post(s, token, session, r, s2),
    ensures
        r == Err::<(), RegistryError>(RegistryError::NotFound),
        s2 == s,
{
}

} // verus!
