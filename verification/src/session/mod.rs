//! Sessions: metadata, on-disk layout and name resolution.

pub mod ring_buffer;

use vstd::prelude::*;
use crate::text::{
    chars_of,
    chars_eq,
    hex_char,
    hex_digit,
    decimal,
    push_decimal,
    push_str,
    starts_with_chars,
    starts_with_seq,
};

verus! {

/// Session status as stored in the metadata file.
#[derive(Debug, Clone, Copy, PartialEq, Eq, Structural)]
pub enum SessionStatus {
    Detached,
    Attached,
    Dead,
}

/// Session metadata persisted as `meta.json`.
#[derive(Debug)]
pub struct SessionMeta {
    pub id: String,
    pub name: String,
    pub cmd: String,
    pub pid: u32,
    pub created_at: String,
    pub status: SessionStatus,
}

impl Clone for SessionMeta {
    fn clone(&self) -> (r: Self)
        ensures
            r == *self,
    {
        SessionMeta {
            id: self.id.clone(),
            name: self.name.clone(),
            cmd: self.cmd.clone(),
            pid: self.pid,
            created_at: self.created_at.clone(),
            status: self.status,
        }
    }
}

impl SessionMeta {
    /// Update the status; the rest of the metadata is kept.
    pub fn update_status(&mut self, status: SessionStatus)
        ensures
            *final(self) == (SessionMeta { status, ..*old(self) }),
    {
        self.status = status;
    }
}

/// Paths of a session's runtime files, all inside the session's directory.
#[derive(Debug)]
pub struct SessionPaths {
    pub dir: String,
    pub socket: String,
    pub history: String,
    pub meta: String,
}

impl Clone for SessionPaths {
    fn clone(&self) -> (r: Self)
        ensures
            r == *self,
    {
        SessionPaths {
            dir: self.dir.clone(),
            socket: self.socket.clone(),
            history: self.history.clone(),
            meta: self.meta.clone(),
        }
    }
}

/// Joining a relative path component onto a Unix path, as `Path::join`
/// does: an absolute component replaces the base, and a `/` separator is
/// inserted unless the base is empty or already ends with one.
pub open spec fn join_path(base: Seq<char>, part: Seq<char>) -> Seq<char> {
    if part.len() > 0 && part[0] == '/' {
        part
    } else if base.len() == 0 || base.last() == '/' {
        base + part
    } else {
        base + seq!['/'] + part
    }
}

/// Join `part` onto `base` as a Unix path.
pub fn join(base: &str, part: &str) -> (r: String)
    ensures
        r@ == join_path(base@, part@),
{
    let b = chars_of(base);
    let p = chars_of(part);
    let mut out = String::new();
    if p.len() > 0 && p[0] == '/' {
        push_str(&mut out, part);
    } else if b.len() == 0 || b[b.len() - 1] == '/' {
        push_str(&mut out, base);
        push_str(&mut out, part);
    } else {
        push_str(&mut out, base);
        out.push('/');
        push_str(&mut out, part);
    }
    out
}

impl SessionPaths {
    /// The paths of session `id` under the sessions directory `base`.
    pub fn from_base(base: &str, id: &str) -> (r: Self)
        ensures
            r.dir@ == join_path(base@, id@),
            r.socket@ == join_path(r.dir@, seq!['s', 'e', 'r', 'v', 'e', 'r', '.', 's', 'o', 'c', 'k']),
            r.history@ == join_path(r.dir@, seq!['h', 'i', 's', 't', 'o', 'r', 'y', '.', 'b', 'i', 'n']),
            r.meta@ == join_path(r.dir@, seq!['m', 'e', 't', 'a', '.', 'j', 's', 'o', 'n']),
    {
        let dir = join(base, id);
        let socket = join(dir.as_str(), "server.sock");
        let history = join(dir.as_str(), "history.bin");
        let meta = join(dir.as_str(), "meta.json");
        proof {
            reveal_strlit("server.sock");
            reveal_strlit("history.bin");
            reveal_strlit("meta.json");
        }
        SessionPaths { dir, socket, history, meta }
    }
}

/// The fixed opening of every session id.
pub open spec fn id_prefix() -> Seq<char> {
    seq!['s', 'e', 's', 's', 'i', 'o', 'n', '-']
}

/// The session id built from six random bytes: `session-` followed by the
/// lower-case hex digit of each byte modulo 16.
pub open spec fn session_id_of(values: Seq<u8>) -> Seq<char> {
    id_prefix() + Seq::new(values.len(), |i: int| hex_char((values[i] % 16) as nat))
}

/// A character is a lower-case hex digit.
pub open spec fn is_lower_hex(c: char) -> bool {
    ('0' <= c && c <= '9') || ('a' <= c && c <= 'f')
}

/// Format a session id from the random bytes it is drawn from.
pub fn format_session_id(values: &[u8]) -> (r: String)
    ensures
        r@ == session_id_of(values@),
{
    let mut out = String::new();
    push_str(&mut out, "session-");
    proof {
        reveal_strlit("session-");
    }
    let mut i: usize = 0;
    while i < values.len()
        invariant
            0 <= i <= values@.len(),
            out@ =~= id_prefix() + Seq::new(i as nat, |k: int| hex_char((values@[k] % 16) as nat)),
        decreases values@.len() - i,
    {
        out.push(hex_digit(values[i] % 16));
        i = i + 1;
    }
    out
}

/// Calls `rand::random::<u8>()`, a byte from the thread-local generator.
/// Nothing is stated of the value: it is random. The generator panics only
/// where the operating system's random source cannot be opened.
#[verifier::external_body]
fn random_byte() -> (r: u8) {
    rand::random::<u8>()
}

/// Generate a random session id: `session-` and six hex digits.
pub fn generate_session_id() -> (r: String)
    ensures
        exists|values: Seq<u8>| values.len() == 6 && r@ == session_id_of(values),
        r@.len() == 14,
        r@.subrange(0, 8) == id_prefix(),
        forall|i: int| 8 <= i < 14 ==> is_lower_hex(#[trigger] r@[i]),
{
    let mut values: Vec<u8> = Vec::new();
    let mut i: usize = 0;
    while i < 6
        invariant
            0 <= i <= 6,
            values@.len() == i,
        decreases 6 - i,
    {
        values.push(random_byte());
        i = i + 1;
    }
    let r = format_session_id(values.as_slice());
    proof {
        assert(r@.subrange(0, 8) =~= id_prefix());
        assert forall|i: int| 8 <= i < 14 implies is_lower_hex(#[trigger] r@[i]) by {
            let d = (values@[i - 8] % 16) as nat;
            assert(r@[i] == hex_char(d));
        }
    }
    r
}

/// Why a session name or id prefix did not resolve to one session.
#[derive(Debug, Clone, Copy, PartialEq, Eq, Structural)]
pub enum ResolveError {
    /// No session has that name, and no id starts with it.
    NotFound,
    /// No session has that name, and `count` ids start with it.
    Ambiguous { count: usize },
}

/// The text of a resolution error for `target`.
pub open spec fn resolve_error_text(e: ResolveError, target: Seq<char>) -> Seq<char> {
    match e {
        ResolveError::NotFound => "No session found matching '"@ + target + "'"@,
        ResolveError::Ambiguous { count } => "Ambiguous session '"@ + target + "': matches "@
            + decimal(count as nat) + " sessions"@,
    }
}

impl ResolveError {
    /// The error's text, naming the target that did not resolve.
    pub fn message(&self, target: &str) -> (r: String)
        ensures
            r@ == resolve_error_text(*self, target@),
    {
        let mut out = String::new();
        match self {
            ResolveError::NotFound => {
                push_str(&mut out, "No session found matching '");
                push_str(&mut out, target);
                push_str(&mut out, "'");
            },
            ResolveError::Ambiguous { count } => {
                push_str(&mut out, "Ambiguous session '");
                push_str(&mut out, target);
                push_str(&mut out, "': matches ");
                push_decimal(&mut out, *count as u64);
                push_str(&mut out, " sessions");
            },
        }
        out
    }
}

/// A target of at least four bytes (in UTF-8) that opens the session's id.
pub open spec fn id_prefix_match(meta: SessionMeta, target: &str) -> bool {
    target.len() >= 4 && starts_with_seq(meta.id@, target@)
}

/// The positions, in order, of the sessions whose id `target` prefixes.
pub open spec fn prefix_match_positions(metas: Seq<SessionMeta>, target: &str) -> Seq<int>
    decreases metas.len(),
{
    if metas.len() == 0 {
        Seq::empty()
    } else {
        let rest = prefix_match_positions(metas.drop_last(), target);
        if id_prefix_match(metas.last(), target) {
            rest.push(metas.len() - 1)
        } else {
            rest
        }
    }
}

/// The session at position `i` is the first whose name is `target`.
pub open spec fn first_named(metas: Seq<SessionMeta>, target: Seq<char>, i: int) -> bool {
    &&& 0 <= i < metas.len()
    &&& metas[i].name@ == target
    &&& forall|j: int| 0 <= j < i ==> (#[trigger] metas[j]).name@ != target
}

/// No session is named `target`.
pub open spec fn none_named(metas: Seq<SessionMeta>, target: Seq<char>) -> bool {
    forall|j: int| 0 <= j < metas.len() ==> (#[trigger] metas[j]).name@ != target
}

proof fn lemma_prefix_positions_bounded(metas: Seq<SessionMeta>, target: &str)
    ensures
        forall|k: int|
            0 <= k < prefix_match_positions(metas, target).len() ==> 0
                <= #[trigger] prefix_match_positions(metas, target)[k] < metas.len(),
    decreases metas.len(),
{
    if metas.len() > 0 {
        lemma_prefix_positions_bounded(metas.drop_last(), target);
        let rest = prefix_match_positions(metas.drop_last(), target);
        assert forall|k: int| 0 <= k < rest.len() implies 0 <= #[trigger] rest[k] < metas.len() by {
        }
    }
}

proof fn lemma_prefix_positions_match(metas: Seq<SessionMeta>, target: &str)
    ensures
        forall|k: int|
            0 <= k < prefix_match_positions(metas, target).len() ==> 0
                <= #[trigger] prefix_match_positions(metas, target)[k] < metas.len()
                && id_prefix_match(metas[prefix_match_positions(metas, target)[k]], target),
        (forall|j: int| 0 <= j < metas.len() ==> !id_prefix_match(#[trigger] metas[j], target))
            ==> prefix_match_positions(metas, target).len() == 0,
        forall|i: int|
            0 <= i < metas.len() && id_prefix_match(#[trigger] metas[i], target) ==> exists|k: int|
                0 <= k < prefix_match_positions(metas, target).len() && prefix_match_positions(
                    metas,
                    target,
                )[k] == i,
        forall|k1: int, k2: int|
            0 <= k1 < k2 < prefix_match_positions(metas, target).len() ==> prefix_match_positions(
                metas,
                target,
            )[k1] < prefix_match_positions(metas, target)[k2],
    decreases metas.len(),
{
    if metas.len() > 0 {
        let init = metas.drop_last();
        lemma_prefix_positions_match(init, target);
        let rest = prefix_match_positions(init, target);
        let all = prefix_match_positions(metas, target);
        assert forall|i: int| 0 <= i < metas.len() && id_prefix_match(
            #[trigger] metas[i],
            target,
        ) implies exists|k: int| 0 <= k < all.len() && all[k] == i by {
            if i < metas.len() - 1 {
                assert(init[i] == metas[i]);
                let k = choose|k: int| 0 <= k < rest.len() && rest[k] == i;
                assert(all[k] == i);
            } else {
                assert(all[rest.len() as int] == i);
            }
        }
        assert forall|k: int| 0 <= k < rest.len() implies 0 <= #[trigger] rest[k] < metas.len()
            && id_prefix_match(metas[rest[k]], target) by {
            assert(metas[rest[k]] == init[rest[k]]);
        }
        if forall|j: int| 0 <= j < metas.len() ==> !id_prefix_match(#[trigger] metas[j], target) {
            assert forall|j: int| 0 <= j < init.len() implies !id_prefix_match(
                #[trigger] init[j],
                target,
            ) by {
                assert(init[j] == metas[j]);
            }
            assert(!id_prefix_match(metas[metas.len() - 1], target));
        }
    }
}

proof fn lemma_first_named_exists(metas: Seq<SessionMeta>, target: Seq<char>, j: int)
    requires
        0 <= j < metas.len(),
        metas[j].name@ == target,
    ensures
        exists|i: int| first_named(metas, target, i),
    decreases j,
{
    if exists|k: int| 0 <= k < j && (#[trigger] metas[k]).name@ == target {
        let k = choose|k: int| 0 <= k < j && (#[trigger] metas[k]).name@ == target;
        lemma_first_named_exists(metas, target, k);
    } else {
        assert(first_named(metas, target, j));
    }
}

/// `target` opens `id`: the id begins with the target's characters.
pub open spec fn opens(id: Seq<char>, target: Seq<char>) -> bool {
    target.len() <= id.len() && id.subrange(0, target.len() as int) == target
}

/// Law: what resolving a target means. A session found is one of the listed
/// sessions, and either has the target as its name or has an id that begins
/// with the target; when some session has that name, one such is found;
/// when no session has that name and no id begins with the target, or the
/// target is shorter than four bytes and names no session, nothing is found.
pub proof fn lemma_resolution_meaning(metas: Seq<SessionMeta>, target: &str)
    ensures
        resolution(metas, target) is Ok ==> ({
            let m = resolution(metas, target)->Ok_0;
            &&& metas.contains(m)
            &&& m.name@ == target@ || opens(m.id@, target@)
        }),
        (exists|j: int| 0 <= j < metas.len() && (#[trigger] metas[j]).name@ == target@) ==> (
        resolution(metas, target) is Ok && resolution(metas, target)->Ok_0.name@ == target@),
        (forall|j: int|
            0 <= j < metas.len() ==> (#[trigger] metas[j]).name@ != target@ && !opens(
                metas[j].id@,
                target@,
            )) ==> resolution(metas, target) == Err::<SessionMeta, ResolveError>(
            ResolveError::NotFound,
        ),
        target.len() < 4 && (forall|j: int|
            0 <= j < metas.len() ==> (#[trigger] metas[j]).name@ != target@) ==> resolution(
            metas,
            target,
        ) == Err::<SessionMeta, ResolveError>(ResolveError::NotFound),
{
    lemma_prefix_positions_match(metas, target);
    let matches = prefix_match_positions(metas, target);
    if exists|i: int| first_named(metas, target@, i) {
        let i = choose|i: int| first_named(metas, target@, i);
        assert(metas[i] == metas[i]);
        assert(metas.contains(metas[i]));
    } else {
        if exists|j: int| 0 <= j < metas.len() && (#[trigger] metas[j]).name@ == target@ {
            let j = choose|j: int| 0 <= j < metas.len() && (#[trigger] metas[j]).name@ == target@;
            lemma_first_named_exists(metas, target@, j);
        }
        if matches.len() == 1 {
            assert(0 <= matches[0] < metas.len());
            assert(metas.contains(metas[matches[0]]));
        }
        if forall|j: int|
            0 <= j < metas.len() ==> (#[trigger] metas[j]).name@ != target@ && !opens(
                metas[j].id@,
                target@,
            ) {
            assert forall|j: int| 0 <= j < metas.len() implies !id_prefix_match(
                #[trigger] metas[j],
                target,
            ) by {
                assert(!opens(metas[j].id@, target@));
            }
        }
    }
}

/// Law: when no session has the target as its name, a target of at least
/// four bytes that begins exactly one session's id finds that session.
pub proof fn lemma_resolution_unique_prefix(metas: Seq<SessionMeta>, target: &str, i: int)
    requires
        target.len() >= 4,
        forall|j: int| 0 <= j < metas.len() ==> (#[trigger] metas[j]).name@ != target@,
        0 <= i < metas.len(),
        opens(metas[i].id@, target@),
        forall|j: int| 0 <= j < metas.len() && j != i ==> !opens((#[trigger] metas[j]).id@, target@),
    ensures
        resolution(metas, target) == Ok::<SessionMeta, ResolveError>(metas[i]),
{
    lemma_prefix_positions_match(metas, target);
    let matches = prefix_match_positions(metas, target);
    assert(!exists|c: int| first_named(metas, target@, c));
    assert(id_prefix_match(metas[i], target));
    let k = choose|k: int| 0 <= k < matches.len() && matches[k] == i;
    if matches.len() > 1 {
        let other: int = if k == 0 {
            1
        } else {
            0
        };
        assert(id_prefix_match(metas[matches[other]], target));
        assert(matches[other] != i);
        assert(opens(metas[matches[other]].id@, target@));
    }
    assert(matches[0] == i);
}

/// Law: when no session has the target as its name, a target of at least
/// four bytes that begins two sessions' ids is ambiguous.
pub proof fn lemma_resolution_ambiguous_prefix(
    metas: Seq<SessionMeta>,
    target: &str,
    i1: int,
    i2: int,
)
    requires
        target.len() >= 4,
        forall|j: int| 0 <= j < metas.len() ==> (#[trigger] metas[j]).name@ != target@,
        0 <= i1 < i2 < metas.len(),
        opens(metas[i1].id@, target@),
        opens(metas[i2].id@, target@),
    ensures
        resolution(metas, target) is Err,
        resolution(metas, target)->Err_0 is Ambiguous,
{
    lemma_prefix_positions_match(metas, target);
    let matches = prefix_match_positions(metas, target);
    assert(!exists|c: int| first_named(metas, target@, c));
    assert(id_prefix_match(metas[i1], target));
    assert(id_prefix_match(metas[i2], target));
    let k1 = choose|k: int| 0 <= k < matches.len() && matches[k] == i1;
    let k2 = choose|k: int| 0 <= k < matches.len() && matches[k] == i2;
    assert(k1 != k2);
}

/// What a target resolves to among `metas` (in the order the sessions
/// directory lists them): the first session with exactly that name; else,
/// for a target of at least four bytes, the one session whose id it opens;
/// else no session, or several.
pub open spec fn resolution(metas: Seq<SessionMeta>, target: &str) -> Result<SessionMeta, ResolveError> {
    if exists|i: int| first_named(metas, target@, i) {
        Ok(metas[choose|i: int| first_named(metas, target@, i)])
    } else {
        let matches = prefix_match_positions(metas, target);
        if matches.len() == 0 {
            Err(ResolveError::NotFound)
        } else if matches.len() == 1 {
            Ok(metas[matches[0]])
        } else {
            Err(ResolveError::Ambiguous { count: matches.len() as usize })
        }
    }
}

/// Resolve a session name or id prefix among `sessions` (in the order the
/// sessions directory lists them). An exact name wins, the first one listed;
/// otherwise a target of at least four bytes resolves when it opens exactly
/// one session id. Returns the id and the metadata.
pub fn resolve_session(sessions: &[SessionMeta], target: &str) -> (r: Result<
    (String, SessionMeta),
    ResolveError,
>)
    ensures
        match r {
            Ok((id, meta)) => id@ == meta.id@ && resolution(sessions@, target) == Ok::<
                SessionMeta,
                ResolveError,
            >(meta),
            Err(e) => resolution(sessions@, target) == Err::<SessionMeta, ResolveError>(e),
        },
{
    let t = chars_of(target);
    let long_enough = target.len() >= 4;
    let mut candidates: Vec<usize> = Vec::new();
    let mut i: usize = 0;
    while i < sessions.len()
        invariant
            0 <= i <= sessions@.len(),
            t@ == target@,
            long_enough == (target.len() >= 4),
            none_named(sessions@.take(i as int), target@),
            candidates@.len() == prefix_match_positions(sessions@.take(i as int), target).len(),
            forall|k: int|
                0 <= k < candidates@.len() ==> candidates@[k] as int
                    == #[trigger] prefix_match_positions(sessions@.take(i as int), target)[k],
        decreases sessions@.len() - i,
    {
        let meta = &sessions[i];
        let name = chars_of(meta.name.as_str());
        proof {
            assert(sessions@.take(i + 1).drop_last() =~= sessions@.take(i as int));
        }
        if chars_eq(&name, &t) {
            let r = (meta.id.clone(), meta.clone());
            proof {
                assert(first_named(sessions@, target@, i as int)) by {
                    assert forall|j: int| 0 <= j < i implies (#[trigger] sessions@[j]).name@
                        != target@ by {
                        assert(sessions@.take(i as int)[j] == sessions@[j]);
                    }
                }
                let c = choose|c: int| first_named(sessions@, target@, c);
                if c < i {
                    assert(sessions@[c].name@ != target@);
                }
                if i < c {
                    assert(sessions@[i as int].name@ != target@);
                }
            }
            return Ok(r);
        }
        let id = chars_of(meta.id.as_str());
        if long_enough && starts_with_chars(&id, &t) {
            candidates.push(i);
        }
        proof {
            assert forall|j: int| 0 <= j < i + 1 implies (#[trigger] sessions@.take(i + 1)[j]).name@
                != target@ by {
                if j < i {
                    assert(sessions@.take(i + 1)[j] == sessions@.take(i as int)[j]);
                }
            }
        }
        i = i + 1;
    }
    proof {
        assert(sessions@.take(i as int) =~= sessions@);
        lemma_prefix_positions_bounded(sessions@, target);
        assert(!exists|c: int| first_named(sessions@, target@, c));
    }
    let count = candidates.len();
    if count == 0 {
        Err(ResolveError::NotFound)
    } else if count == 1 {
        let meta = &sessions[candidates[0]];
        Ok((meta.id.clone(), meta.clone()))
    } else {
        Err(ResolveError::Ambiguous { count })
    }
}

} // verus!
