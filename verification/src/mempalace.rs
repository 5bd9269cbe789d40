//! The Mempalace memory backend.
//!
//! The local store stays authoritative: a recall first asks it, and only
//! when it returns too few hits (and the bridge is not cooling down after a
//! failure) does the backend ask Mempalace, whose hits are merged after the
//! local ones with duplicates removed.  This module holds the backend's
//! settings, the decisions around the bridge, the merge, and the mapping of
//! Mempalace's answer to memory entries; running the search and the local
//! store are the caller's work.
use vstd::prelude::*;
use crate::clock::MonotonicClock;
use crate::text::{
    is_digit,
    clean_setting,
    concatenate,
    decimal,
    decimal_string,
    decode_utf8_lossy,
    lowercase,
    nonblank_spec,
    parse_u64,
    parse_unsigned_spec,
    parse_usize,
    string_of,
    to_lowercase,
    trim,
    trim_spec,
    utf8_lossy,
};

verus! {

// ---------------------------------------------------------------------
// Memory entries.
// ---------------------------------------------------------------------

/// The kind of a memory.
#[derive(Debug, PartialEq, Eq)]
pub enum MemoryCategory {
    Core,
    Daily,
    Conversation,
    Custom(String),
}

impl Clone for MemoryCategory {
    fn clone(&self) -> (r: Self)
        ensures
            r == *self,
    {
        match self {
            MemoryCategory::Core => MemoryCategory::Core,
            MemoryCategory::Daily => MemoryCategory::Daily,
            MemoryCategory::Conversation => MemoryCategory::Conversation,
            MemoryCategory::Custom(s) => MemoryCategory::Custom(s.clone()),
        }
    }
}

/// One remembered item.
#[derive(Debug)]
pub struct MemoryEntry {
    pub id: String,
    pub key: String,
    pub content: String,
    pub category: MemoryCategory,
    /// When the entry was made, RFC 3339.
    pub timestamp: String,
    pub session_id: Option<String>,
    /// Relevance of a recalled entry: the IEEE 754 bits of an `f64`.
    pub score_bits: Option<u64>,
}

fn clone_opt_string(s: &Option<String>) -> (r: Option<String>)
    ensures
        r == *s,
{
    match s {
        Some(v) => Some(v.clone()),
        None => None,
    }
}

impl Clone for MemoryEntry {
    fn clone(&self) -> (r: Self)
        ensures
            r == *self,
    {
        MemoryEntry {
            id: self.id.clone(),
            key: self.key.clone(),
            content: self.content.clone(),
            category: self.category.clone(),
            timestamp: self.timestamp.clone(),
            session_id: clone_opt_string(&self.session_id),
            score_bits: self.score_bits,
        }
    }
}

// ---------------------------------------------------------------------
// Merging recall results.
// ---------------------------------------------------------------------

/// Two entries count as the same memory when their keys and contents agree
/// up to case: this is the text they are compared by.
pub open spec fn signature(e: MemoryEntry) -> Seq<char> {
    lowercase(e.key@) + seq!['\0'] + lowercase(e.content@)
}

/// The entries of `es`, in order, whose signatures are neither in `seen`
/// nor those of an earlier kept entry, up to `limit` of them.
pub open spec fn dedup_limit(es: Seq<MemoryEntry>, seen: Set<Seq<char>>, limit: nat) -> Seq<
    MemoryEntry,
>
    decreases es.len(),
{
    if limit == 0 || es.len() == 0 {
        seq![]
    } else if seen.contains(signature(es[0])) {
        dedup_limit(es.drop_first(), seen, limit)
    } else {
        seq![es[0]] + dedup_limit(
            es.drop_first(),
            seen.insert(signature(es[0])),
            (limit - 1) as nat,
        )
    }
}

/// The merge of two result lists: the first `limit` distinct entries of
/// `primary` followed by `secondary`.
pub open spec fn merge_spec(primary: Seq<MemoryEntry>, secondary: Seq<MemoryEntry>, limit: nat) -> Seq<
    MemoryEntry,
> {
    dedup_limit(primary + secondary, Set::empty(), limit)
}

/// The signature of `e`.
fn signature_of(e: &MemoryEntry) -> (r: String)
    ensures
        r@ == signature(*e),
{
    let k = to_lowercase(e.key.as_str());
    let c = to_lowercase(e.content.as_str());
    let z = vec!['\0'];
    let sep = string_of(z.as_slice());
    let head = concatenate(k.as_str(), sep.as_str());
    concatenate(head.as_str(), c.as_str())
}

/// Whether some string of `v` equals `s`.
fn contains_string(v: &Vec<String>, s: &String) -> (r: bool)
    ensures
        r == exists|k: int| 0 <= k < v@.len() && #[trigger] v@[k]@ == s@,
{
    let mut i: usize = 0;
    while i < v.len()
        invariant
            i <= v@.len(),
            forall|k: int| 0 <= k < i ==> #[trigger] v@[k]@ != s@,
        decreases v@.len() - i,
    {
        if v[i] == *s {
            return true;
        }
        i += 1;
    }
    false
}

/// Merges `primary_results` and then `secondary_results`, dropping entries
/// whose key and content repeat an earlier entry's up to case, and keeping
/// at most `limit` entries.
pub fn merge_results(
    primary_results: Vec<MemoryEntry>,
    secondary_results: Vec<MemoryEntry>,
    limit: usize,
) -> (r: Vec<MemoryEntry>)
    ensures
        r@ == merge_spec(primary_results@, secondary_results@, limit as nat),
{
    if limit == 0 {
        return Vec::new();
    }
    let mut all = primary_results;
    let mut rest = secondary_results;
    all.append(&mut rest);
    let ghost target = dedup_limit(all@, Set::empty(), limit as nat);
    let mut merged: Vec<MemoryEntry> = Vec::new();
    let mut seen: Vec<String> = Vec::new();
    let ghost mut seen_set: Set<Seq<char>> = Set::empty();
    let mut i: usize = 0;
    proof {
        assert(all@.skip(0) =~= all@);
        assert(Seq::<MemoryEntry>::empty() + target =~= target);
    }
    while i < all.len()
        invariant_except_break
            i <= all@.len(),
            merged@.len() < limit,
            target == dedup_limit(all@, Set::empty(), limit as nat),
            forall|x: Seq<char>|
                #![trigger seen_set.contains(x)]
                seen_set.contains(x) <==> exists|k: int|
                    0 <= k < seen@.len() && #[trigger] seen@[k]@ == x,
            merged@ + dedup_limit(all@.skip(i as int), seen_set, (limit - merged@.len()) as nat)
                == target,
        ensures
            merged@ == target,
        decreases all@.len() - i,
    {
        if i >= all.len() {
            proof {
                assert(all@.skip(i as int).len() == 0);
                assert(merged@ + Seq::<MemoryEntry>::empty() =~= merged@);
            }
        }
        let ghost tail = all@.skip(i as int);
        let ghost old_set = seen_set;
        let ghost room = (limit - merged@.len()) as nat;
        proof {
            assert(tail[0] == all@[i as int]);
            assert(tail.drop_first() =~= all@.skip(i + 1));
        }
        let sig = signature_of(&all[i]);
        if !contains_string(&seen, &sig) {
            proof {
                if seen_set.contains(sig@) {
                    let k = choose|k: int| 0 <= k < seen@.len() && #[trigger] seen@[k]@ == sig@;
                    assert(seen@[k]@ == sig@);
                }
                assert(dedup_limit(tail, old_set, room) == seq![all@[i as int]] + dedup_limit(
                    all@.skip(i + 1),
                    old_set.insert(sig@),
                    (room - 1) as nat,
                ));
            }
            let ghost old_seen = seen@;
            seen.push(sig);
            proof {
                let new_set = old_set.insert(signature(all@[i as int]));
                assert forall|x: Seq<char>| #[trigger]
                    new_set.contains(x) <==> exists|k: int|
                        0 <= k < seen@.len() && #[trigger] seen@[k]@ == x by {
                    if new_set.contains(x) {
                        if x == signature(all@[i as int]) {
                            assert(seen@[old_seen.len() as int]@ == x);
                        } else {
                            assert(old_set.contains(x));
                            let k = choose|k: int|
                                0 <= k < old_seen.len() && #[trigger] old_seen[k]@ == x;
                            assert(seen@[k]@ == x);
                        }
                    }
                    if exists|k: int| 0 <= k < seen@.len() && #[trigger] seen@[k]@ == x {
                        let k = choose|k: int| 0 <= k < seen@.len() && #[trigger] seen@[k]@ == x;
                        if k < old_seen.len() {
                            assert(old_seen[k]@ == x);
                        }
                    }
                }
                seen_set = new_set;
            }
            let e = all[i].clone();
            let ghost before = merged@;
            merged.push(e);
            proof {
                assert(merged@ =~= before + seq![all@[i as int]]);
                assert(merged@ + dedup_limit(all@.skip(i + 1), seen_set, (room - 1) as nat)
                    =~= before + dedup_limit(tail, old_set, room));
            }
            if merged.len() >= limit {
                proof {
                    assert(dedup_limit(all@.skip(i + 1), seen_set, 0) =~= Seq::<
                        MemoryEntry,
                    >::empty());
                    assert(merged@ + Seq::<MemoryEntry>::empty() =~= merged@);
                }
                break;
            }
        } else {
            proof {
                let k = choose|k: int| 0 <= k < seen@.len() && #[trigger] seen@[k]@ == sig@;
                assert(seen_set.contains(sig@));
                assert(dedup_limit(tail, old_set, room) == dedup_limit(
                    all@.skip(i + 1),
                    old_set,
                    room,
                ));
            }
        }
        i += 1;
    }
    merged
}

proof fn lemma_dedup_shape(es: Seq<MemoryEntry>, seen: Set<Seq<char>>, limit: nat)
    ensures
        dedup_limit(es, seen, limit).len() <= limit,
        forall|i: int|
            0 <= i < dedup_limit(es, seen, limit).len() ==> !seen.contains(
                signature(#[trigger] dedup_limit(es, seen, limit)[i]),
            ),
        forall|i: int, j: int|
            0 <= i < j < dedup_limit(es, seen, limit).len() ==> signature(
                #[trigger] dedup_limit(es, seen, limit)[i],
            ) != signature(#[trigger] dedup_limit(es, seen, limit)[j]),
        forall|i: int|
            0 <= i < dedup_limit(es, seen, limit).len() ==> es.contains(
                #[trigger] dedup_limit(es, seen, limit)[i],
            ),
    decreases es.len(),
{
    let r = dedup_limit(es, seen, limit);
    if limit == 0 || es.len() == 0 {
    } else if seen.contains(signature(es[0])) {
        let t = es.drop_first();
        lemma_dedup_shape(t, seen, limit);
        assert forall|i: int| 0 <= i < r.len() implies es.contains(#[trigger] r[i]) by {
            let k = choose|k: int| 0 <= k < t.len() && t[k] == r[i];
            assert(es[k + 1] == r[i]);
        }
    } else {
        let t = es.drop_first();
        let s2 = seen.insert(signature(es[0]));
        let rest = dedup_limit(t, s2, (limit - 1) as nat);
        lemma_dedup_shape(t, s2, (limit - 1) as nat);
        assert(r == seq![es[0]] + rest);
        assert forall|i: int| 0 <= i < r.len() implies !seen.contains(signature(#[trigger] r[i])) by {
            if i > 0 {
                assert(r[i] == rest[i - 1]);
            }
        }
        assert forall|i: int, j: int|
            0 <= i < j < r.len() implies signature(#[trigger] r[i]) != signature(
                #[trigger] r[j],
            ) by {
            assert(r[j] == rest[j - 1]);
            if i > 0 {
                assert(r[i] == rest[i - 1]);
            }
        }
        assert forall|i: int| 0 <= i < r.len() implies es.contains(#[trigger] r[i]) by {
            if i == 0 {
                assert(es[0] == r[0]);
            } else {
                assert(r[i] == rest[i - 1]);
                let k = choose|k: int| 0 <= k < t.len() && t[k] == rest[i - 1];
                assert(es[k + 1] == r[i]);
            }
        }
    }
}

proof fn lemma_dedup_prefix(
    p: Seq<MemoryEntry>,
    q: Seq<MemoryEntry>,
    seen: Set<Seq<char>>,
    limit: nat,
)
    ensures
        dedup_limit(p, seen, limit).len() <= dedup_limit(p + q, seen, limit).len(),
        dedup_limit(p, seen, limit) == dedup_limit(p + q, seen, limit).take(
            dedup_limit(p, seen, limit).len() as int,
        ),
    decreases p.len(),
{
    let a = dedup_limit(p, seen, limit);
    let b = dedup_limit(p + q, seen, limit);
    if limit == 0 || p.len() == 0 {
        assert(a =~= b.take(0));
    } else {
        assert((p + q)[0] == p[0]);
        assert((p + q).drop_first() =~= p.drop_first() + q);
        if seen.contains(signature(p[0])) {
            lemma_dedup_prefix(p.drop_first(), q, seen, limit);
        } else {
            let s2 = seen.insert(signature(p[0]));
            lemma_dedup_prefix(p.drop_first(), q, s2, (limit - 1) as nat);
            let a2 = dedup_limit(p.drop_first(), s2, (limit - 1) as nat);
            let b2 = dedup_limit(p.drop_first() + q, s2, (limit - 1) as nat);
            assert(a == seq![p[0]] + a2);
            assert(b == seq![p[0]] + b2);
            assert(a =~= b.take(a.len() as int));
        }
    }
}

/// A merge keeps at most `limit` entries, no two with the same key and
/// content up to case, each taken from one of the two lists.
pub proof fn law_merge_bounded_distinct(
    primary: Seq<MemoryEntry>,
    secondary: Seq<MemoryEntry>,
    limit: nat,
)
    ensures
        merge_spec(primary, secondary, limit).len() <= limit,
        forall|i: int, j: int|
            0 <= i < j < merge_spec(primary, secondary, limit).len() ==> signature(
                #[trigger] merge_spec(primary, secondary, limit)[i],
            ) != signature(#[trigger] merge_spec(primary, secondary, limit)[j]),
        forall|i: int|
            0 <= i < merge_spec(primary, secondary, limit).len() ==> (primary + secondary).contains(
                #[trigger] merge_spec(primary, secondary, limit)[i],
            ),
{
    lemma_dedup_shape(primary + secondary, Set::empty(), limit);
}

/// The primary list comes first: a merge begins with the distinct entries
/// of `primary` (up to `limit`), and when those already fill `limit` the
/// secondary list contributes nothing.
pub proof fn law_merge_primary_first(
    primary: Seq<MemoryEntry>,
    secondary: Seq<MemoryEntry>,
    limit: nat,
)
    ensures
        dedup_limit(primary, Set::empty(), limit) == merge_spec(primary, secondary, limit).take(
            dedup_limit(primary, Set::empty(), limit).len() as int,
        ),
        dedup_limit(primary, Set::empty(), limit).len() == limit ==> merge_spec(
            primary,
            secondary,
            limit,
        ) == dedup_limit(primary, Set::empty(), limit),
{
    lemma_dedup_prefix(primary, secondary, Set::empty(), limit);
    lemma_dedup_shape(primary + secondary, Set::empty(), limit);
    let a = dedup_limit(primary, Set::empty(), limit);
    let b = merge_spec(primary, secondary, limit);
    if a.len() == limit {
        assert(b.len() == limit);
        assert(b.take(limit as int) =~= b);
    }
}

// ---------------------------------------------------------------------
// Settings.
// ---------------------------------------------------------------------

/// Interpreter used when no other is configured or found.
pub const DEFAULT_PYTHON_CMD: &'static str = "python3";

/// Default time limit of a Mempalace search, in milliseconds.
pub const DEFAULT_RECALL_TIMEOUT_MS: u64 = 900;

/// Smallest accepted time limit of a search, in milliseconds.
pub const MIN_RECALL_TIMEOUT_MS: u64 = 50;

/// Default number of local hits at which Mempalace is not asked.
pub const DEFAULT_LOCAL_HIT_THRESHOLD: usize = 3;

/// Smallest accepted number of local hits at which Mempalace is not asked.
pub const MIN_LOCAL_HIT_THRESHOLD: usize = 1;

/// Default pause after a failed search, in milliseconds.
pub const DEFAULT_FAILURE_COOLDOWN_MS: u64 = 20_000;

/// Smallest accepted pause after a failed search, in milliseconds.
pub const MIN_FAILURE_COOLDOWN_MS: u64 = 500;

/// Nanoseconds in one millisecond.
pub const NANOS_PER_MILLI: u64 = 1_000_000;

/// A numeric setting read from its raw text: the parsed value raised to at
/// least `min`, or `default` when the text is missing or not a number.
pub open spec fn numeric_setting(raw: Option<&str>, default: nat, min: nat, max: nat) -> nat {
    match raw {
        Some(s) => match parse_unsigned_spec(s@, max) {
            Some(v) => if v < min {
                min
            } else {
                v
            },
            None => default,
        },
        None => default,
    }
}

/// A millisecond setting, as `numeric_setting` reads it.
pub fn setting_u64(raw: Option<&str>, default: u64, min: u64) -> (r: u64)
    ensures
        r == numeric_setting(raw, default as nat, min as nat, u64::MAX as nat),
{
    match raw {
        Some(s) => match parse_u64(s) {
            Some(v) => if v < min {
                min
            } else {
                v
            },
            None => default,
        },
        None => default,
    }
}

/// A count setting, as `numeric_setting` reads it.
pub fn setting_usize(raw: Option<&str>, default: usize, min: usize) -> (r: usize)
    ensures
        r == numeric_setting(raw, default as nat, min as nat, usize::MAX as nat),
{
    match raw {
        Some(s) => match parse_usize(s) {
            Some(v) => if v < min {
                min
            } else {
                v
            },
            None => default,
        },
        None => default,
    }
}

/// The interpreter of the Mempalace virtual environment under `home`.
pub fn venv_python_path(home: &str) -> (r: String)
    ensures
        r@ == home@ + "/.zeroclaw/venvs/mempalace/bin/python"@,
{
    concatenate(home, "/.zeroclaw/venvs/mempalace/bin/python")
}

/// The interpreter to use when none is configured: the virtual
/// environment's, when it exists, else `python3`.
pub fn default_python_command(existing_venv_python: Option<&str>) -> (r: String)
    ensures
        match existing_venv_python {
            Some(p) => r@ == p@,
            None => r@ == DEFAULT_PYTHON_CMD@,
        },
{
    match existing_venv_python {
        Some(p) => p.to_owned(),
        None => DEFAULT_PYTHON_CMD.to_owned(),
    }
}

/// How the backend reaches Mempalace.
#[derive(Debug)]
pub struct MempalaceSettings {
    /// Interpreter that runs the search script.
    pub python_cmd: String,
    /// Palace to search; Mempalace's own default when absent.
    pub palace_path: Option<String>,
    /// Time limit of a search, in milliseconds.
    pub recall_timeout_ms: u64,
    /// Number of local hits at which Mempalace is not asked.
    pub local_hit_threshold: usize,
    /// Pause after a failed search, in milliseconds.
    pub failure_cooldown_ms: u64,
}

/// The settings respect the smallest accepted values: a search time limit
/// of at least 50 ms, a local hit threshold of at least 1, and a failure
/// pause of at least 500 ms.
pub open spec fn settings_in_range(s: MempalaceSettings) -> bool {
    &&& s.recall_timeout_ms >= MIN_RECALL_TIMEOUT_MS
    &&& s.local_hit_threshold >= MIN_LOCAL_HIT_THRESHOLD
    &&& s.failure_cooldown_ms >= MIN_FAILURE_COOLDOWN_MS
}

/// The settings given by the raw values of the environment variables
/// `ZEROCLAW_MEMPALACE_PYTHON`, `ZEROCLAW_MEMPALACE_PATH`,
/// `ZEROCLAW_MEMPALACE_RECALL_TIMEOUT_MS`,
/// `ZEROCLAW_MEMPALACE_LOCAL_HIT_THRESHOLD` and
/// `ZEROCLAW_MEMPALACE_FAILURE_COOLDOWN_MS`; `fallback_python` is the
/// interpreter to use when the first is unset or blank.
pub fn settings_from_env(
    python: Option<&str>,
    fallback_python: String,
    palace_path: Option<&str>,
    recall_timeout_ms: Option<&str>,
    local_hit_threshold: Option<&str>,
    failure_cooldown_ms: Option<&str>,
) -> (r: MempalaceSettings)
    ensures
        match python {
            Some(p) if nonblank_spec(p@) is Some => r.python_cmd@ == trim_spec(p@),
            _ => r.python_cmd@ == fallback_python@,
        },
        match palace_path {
            Some(p) if nonblank_spec(p@) is Some => r.palace_path matches Some(v) && v@
                == trim_spec(p@),
            _ => r.palace_path is None,
        },
        r.recall_timeout_ms == numeric_setting(
            recall_timeout_ms,
            DEFAULT_RECALL_TIMEOUT_MS as nat,
            MIN_RECALL_TIMEOUT_MS as nat,
            u64::MAX as nat,
        ),
        r.local_hit_threshold == numeric_setting(
            local_hit_threshold,
            DEFAULT_LOCAL_HIT_THRESHOLD as nat,
            MIN_LOCAL_HIT_THRESHOLD as nat,
            usize::MAX as nat,
        ),
        r.failure_cooldown_ms == numeric_setting(
            failure_cooldown_ms,
            DEFAULT_FAILURE_COOLDOWN_MS as nat,
            MIN_FAILURE_COOLDOWN_MS as nat,
            u64::MAX as nat,
        ),
        settings_in_range(r),
{
    let python_cmd = match clean_setting(python) {
        Some(p) => p,
        None => fallback_python,
    };
    MempalaceSettings {
        python_cmd,
        palace_path: clean_setting(palace_path),
        recall_timeout_ms: setting_u64(
            recall_timeout_ms,
            DEFAULT_RECALL_TIMEOUT_MS,
            MIN_RECALL_TIMEOUT_MS,
        ),
        local_hit_threshold: setting_usize(
            local_hit_threshold,
            DEFAULT_LOCAL_HIT_THRESHOLD,
            MIN_LOCAL_HIT_THRESHOLD,
        ),
        failure_cooldown_ms: setting_u64(
            failure_cooldown_ms,
            DEFAULT_FAILURE_COOLDOWN_MS,
            MIN_FAILURE_COOLDOWN_MS,
        ),
    }
}

// ---------------------------------------------------------------------
// The search command and its answer.
// ---------------------------------------------------------------------

/// Python program that runs a Mempalace search: its arguments are the
/// query, the palace path (or `__AUTO__`) and the number of results; it
/// prints the search result as JSON.
pub const SEARCH_SCRIPT: &'static str = r#"
import json
import sys

from mempalace.config import MempalaceConfig
from mempalace.searcher import search_memories

query = sys.argv[1]
palace_arg = sys.argv[2]
n_results = int(sys.argv[3])

palace_path = palace_arg if palace_arg != "__AUTO__" else MempalaceConfig().palace_path
result = search_memories(query=query, palace_path=palace_path, n_results=n_results)
print(json.dumps(result, ensure_ascii=False))
"#;

/// Palace argument that lets Mempalace pick its configured palace.
pub const AUTO_PALACE: &'static str = "__AUTO__";

/// The palace argument: the configured path unless it is blank.
pub open spec fn palace_arg_spec(palace_path: Option<Seq<char>>) -> Seq<char> {
    match palace_path {
        Some(p) => if trim_spec(p).len() > 0 {
            p
        } else {
            AUTO_PALACE@
        },
        None => AUTO_PALACE@,
    }
}

/// The arguments of the interpreter for a search of `query` returning at
/// most `limit` hits: `-c`, the script, the query, the palace argument and
/// the limit in decimal.
pub fn search_args(palace_path: Option<&str>, query: &str, limit: usize) -> (r: Vec<String>)
    ensures
        r@.len() == 5,
        r@[0]@ == "-c"@,
        r@[1]@ == SEARCH_SCRIPT@,
        r@[2]@ == query@,
        r@[3]@ == palace_arg_spec(
            match palace_path {
                Some(p) => Some(p@),
                None => None,
            },
        ),
        r@[4]@ == decimal(limit as nat),
{
    let palace = match palace_path {
        Some(p) => {
            let t = trim(p);
            if t.as_str().is_empty() {
                AUTO_PALACE.to_owned()
            } else {
                p.to_owned()
            }
        },
        None => AUTO_PALACE.to_owned(),
    };
    let mut args: Vec<String> = Vec::new();
    args.push("-c".to_owned());
    args.push(SEARCH_SCRIPT.to_owned());
    args.push(query.to_owned());
    args.push(palace);
    args.push(decimal_string(limit as u64));
    args
}

/// Why a Mempalace search gave no hits.
#[derive(Debug)]
pub enum MempalaceError {
    /// The search ran longer than its time limit, in milliseconds.
    TimedOut { after_ms: u64 },
    /// The search command could not be run; the system's message.
    Io(String),
    /// The search command exited unsuccessfully; its standard error.
    CommandFailed(String),
    /// The search printed something that is not a search result.
    OutputParse(String),
    /// Mempalace reported an error.
    Search(String),
}

/// The text that describes `e`.
pub open spec fn error_message(e: MempalaceError) -> Seq<char> {
    match e {
        MempalaceError::TimedOut { after_ms } => "mempalace search timed out after "@ + decimal(
            after_ms as nat,
        ) + "ms"@,
        MempalaceError::Io(m) => m@,
        MempalaceError::CommandFailed(m) => "mempalace search command failed: "@ + m@,
        MempalaceError::OutputParse(m) => "mempalace search output parse failed: "@ + m@,
        MempalaceError::Search(m) => "mempalace search returned error: "@ + m@,
    }
}

impl MempalaceError {
    /// The text that describes the error.
    pub fn message(&self) -> (r: String)
        ensures
            r@ == error_message(*self),
    {
        match self {
            MempalaceError::TimedOut { after_ms } => {
                let n = decimal_string(*after_ms);
                let head = concatenate("mempalace search timed out after ", n.as_str());
                concatenate(head.as_str(), "ms")
            },
            MempalaceError::Io(m) => m.clone(),
            MempalaceError::CommandFailed(m) => concatenate(
                "mempalace search command failed: ",
                m.as_str(),
            ),
            MempalaceError::OutputParse(m) => concatenate(
                "mempalace search output parse failed: ",
                m.as_str(),
            ),
            MempalaceError::Search(m) => concatenate("mempalace search returned error: ", m.as_str()),
        }
    }
}

/// The outcome of a finished search command: its trimmed standard output
/// when it exited successfully, else its standard error as the failure.
pub fn search_outcome(success: bool, stdout: &[u8], stderr: &[u8]) -> (r: Result<
    String,
    MempalaceError,
>)
    ensures
        success ==> (r matches Ok(t) && t@ == trim_spec(utf8_lossy(stdout@))),
        !success ==> (r matches Err(MempalaceError::CommandFailed(m)) && m@ == utf8_lossy(
            stderr@,
        )),
{
    if !success {
        return Err(MempalaceError::CommandFailed(decode_utf8_lossy(stderr)));
    }
    let out = decode_utf8_lossy(stdout);
    Ok(trim(out.as_str()))
}

/// One hit of a Mempalace search.
#[derive(Debug)]
pub struct MempalaceHit {
    pub text: String,
    pub wing: String,
    pub room: String,
    pub source_file: String,
    /// The IEEE 754 bits of the hit's `f64` similarity.
    pub similarity_bits: Option<u64>,
}

/// The answer of a Mempalace search.
#[derive(Debug)]
pub struct MempalaceSearch {
    pub error: Option<String>,
    pub results: Option<Vec<MempalaceHit>>,
}

/// The hits of an answer; none when it lists none.
pub open spec fn search_hits(s: MempalaceSearch) -> Seq<MempalaceHit> {
    match s.results {
        Some(h) => h@,
        None => Seq::empty(),
    }
}

/// The key of the entry made of hit `h`: its wing, room and source file,
/// each trimmed, after `mempalace:` and separated by colons.
pub open spec fn hit_key(h: MempalaceHit) -> Seq<char> {
    "mempalace:"@ + trim_spec(h.wing@) + ":"@ + trim_spec(h.room@) + ":"@ + trim_spec(
        h.source_file@,
    )
}

/// `e` is the entry made of hit `h`, the `idx`-th of its answer, at time
/// `now`.
pub open spec fn entry_from_hit(e: MemoryEntry, h: MempalaceHit, idx: nat, now: Seq<char>) -> bool {
    &&& e.id@ == "mempalace:"@ + decimal(idx)
    &&& e.key@ == hit_key(h)
    &&& e.content@ == h.text@
    &&& e.category == MemoryCategory::Conversation
    &&& e.timestamp@ == now
    &&& e.session_id is None
    &&& e.score_bits == h.similarity_bits
}

/// `es` are the entries made of `hits` at time `now`, one per hit, in
/// order.
pub open spec fn entries_of_hits(es: Seq<MemoryEntry>, hits: Seq<MempalaceHit>, now: Seq<char>) -> bool {
    &&& es.len() == hits.len()
    &&& forall|i: int| 0 <= i < hits.len() ==> entry_from_hit(#[trigger] es[i], hits[i], i as nat, now)
}

/// Every character of `s` is an ASCII digit.
pub open spec fn all_digits(s: Seq<char>) -> bool {
    forall|i: int| 0 <= i < s.len() ==> is_digit(#[trigger] s[i])
}

/// The year of an RFC 3339 timestamp as chrono writes it: four digits, or,
/// outside 0 to 9999, a sign and at least four digits.
pub open spec fn rfc3339_year(y: Seq<char>) -> bool {
    ||| y.len() == 4 && all_digits(y)
    ||| y.len() >= 5 && (y[0] == '+' || y[0] == '-') && all_digits(y.drop_first())
}

/// The fraction of a second: nothing, or a point and three, six or nine
/// digits.
pub open spec fn rfc3339_fraction(f: Seq<char>) -> bool {
    ||| f.len() == 0
    ||| (f.len() == 4 || f.len() == 7 || f.len() == 10) && f[0] == '.' && all_digits(
        f.drop_first(),
    )
}

/// `t` is a year of `yl` characters, then `-MM-DDThh:mm:ss`, then a
/// fraction of `fl` characters, then an offset `+hh:mm` or `-hh:mm`.
pub open spec fn rfc3339_parts(t: Seq<char>, yl: int, fl: int) -> bool {
    let r = t.subrange(yl, yl + 15);
    let o = t.subrange(yl + 15 + fl, t.len() as int);
    &&& yl >= 4 && fl >= 0 && t.len() == yl + 15 + fl + 6
    &&& rfc3339_year(t.subrange(0, yl))
    &&& r[0] == '-' && is_digit(r[1]) && is_digit(r[2]) && r[3] == '-' && is_digit(r[4])
        && is_digit(r[5]) && r[6] == 'T' && is_digit(r[7]) && is_digit(r[8]) && r[9] == ':'
        && is_digit(r[10]) && is_digit(r[11]) && r[12] == ':' && is_digit(r[13]) && is_digit(
        r[14],
    )
    &&& rfc3339_fraction(t.subrange(yl + 15, yl + 15 + fl))
    &&& (o[0] == '+' || o[0] == '-') && is_digit(o[1]) && is_digit(o[2]) && o[3] == ':'
        && is_digit(o[4]) && is_digit(o[5])
}

/// `t` has the form of the RFC 3339 timestamps that chrono's `to_rfc3339`
/// writes.
pub open spec fn is_rfc3339_timestamp(t: Seq<char>) -> bool {
    exists|yl: int, fl: int| #[trigger] rfc3339_parts(t, yl, fl)
}

/// `es` are the entries made of `hits`, one per hit, in order, all
/// stamped with one RFC 3339 timestamp.
pub open spec fn stamped_entries_of(es: Seq<MemoryEntry>, hits: Seq<MempalaceHit>) -> bool {
    exists|now: Seq<char>| #[trigger] entries_of_hits(es, hits, now) && is_rfc3339_timestamp(now)
}

/// The entries made of `hits` at time `now`, one per hit, in order.
pub fn hits_to_entries(hits: &Vec<MempalaceHit>, now: &str) -> (r: Vec<MemoryEntry>)
    ensures
        entries_of_hits(r@, hits@, now@),
{
    let mut out: Vec<MemoryEntry> = Vec::new();
    let mut i: usize = 0;
    while i < hits.len()
        invariant
            i <= hits@.len(),
            out@.len() == i,
            forall|j: int|
                0 <= j < i ==> entry_from_hit(#[trigger] out@[j], hits@[j], j as nat, now@),
        decreases hits@.len() - i,
    {
        let h = &hits[i];
        let id = concatenate("mempalace:", decimal_string(i as u64).as_str());
        let wing = trim(h.wing.as_str());
        let room = trim(h.room.as_str());
        let source = trim(h.source_file.as_str());
        let k1 = concatenate("mempalace:", wing.as_str());
        let k2 = concatenate(k1.as_str(), ":");
        let k3 = concatenate(k2.as_str(), room.as_str());
        let k4 = concatenate(k3.as_str(), ":");
        let key = concatenate(k4.as_str(), source.as_str());
        out.push(
            MemoryEntry {
                id,
                key,
                content: h.text.clone(),
                category: MemoryCategory::Conversation,
                timestamp: now.to_owned(),
                session_id: None,
                score_bits: h.similarity_bits,
            },
        );
        i += 1;
    }
    out
}

/// `chrono::Local::now().to_rfc3339()`: the current local time in RFC 3339.
/// Which time it shows depends on the moment of the call and the machine's
/// time zone, so only its form is stated, as chrono's `write_rfc3339`
/// writes it (automatic fraction, offset in hours and minutes with a colon,
/// never `Z`).
#[verifier::external_body]
fn local_now_rfc3339() -> (r: String)
    ensures
        is_rfc3339_timestamp(r@),
{
    chrono::Local::now().to_rfc3339()
}

/// The entries a search answer yields, stamped with the current local
/// time; the error Mempalace reported, if it reported one.
pub fn entries_from_search(search: &MempalaceSearch) -> (r: Result<
    Vec<MemoryEntry>,
    MempalaceError,
>)
    ensures
        search.error is Some ==> (r matches Err(MempalaceError::Search(m)) && m@
            == search.error->0@),
        search.error is None ==> r is Ok,
        r matches Ok(v) ==> stamped_entries_of(v@, search_hits(*search)),
{
    match &search.error {
        Some(e) => {
            return Err(MempalaceError::Search(e.clone()));
        },
        None => {},
    }
    let now = local_now_rfc3339();
    match &search.results {
        Some(hits) => {
            let v = hits_to_entries(hits, now.as_str());
            assert(search_hits(*search) == hits@);
            assert(entries_of_hits(v@, search_hits(*search), now@));
            Ok(v)
        },
        None => {
            let v: Vec<MemoryEntry> = Vec::new();
            assert(entries_of_hits(v@, search_hits(*search), now@));
            Ok(v)
        },
    }
}

// ---------------------------------------------------------------------
// The backend and its recall decisions.
// ---------------------------------------------------------------------

/// Nanoseconds from `from` to `to`; none when `to` is earlier.
pub open spec fn elapsed(from: u64, to: u64) -> int {
    if to >= from {
        to - from
    } else {
        0
    }
}

/// Whether, at `now`, a failure at `last` is less than `cooldown_ms`
/// milliseconds old.
pub open spec fn cooling_down(last: Option<u64>, cooldown_ms: u64, now: u64) -> bool {
    match last {
        Some(t) => elapsed(t, now) < cooldown_ms * NANOS_PER_MILLI,
        None => false,
    }
}

/// Whether a recall of at most `limit` entries, for which the local store
/// found `local_hits`, should also ask Mempalace.
pub open spec fn wants_bridge(limit: nat, local_hits: nat, threshold: nat, cooling: bool) -> bool {
    !(limit == 0 || local_hits >= threshold || cooling)
}

/// The Mempalace backend: a local store, which stays authoritative, and
/// the settings and failure state of the bridge to Mempalace.  Points in
/// time are nanoseconds since the backend's clock started.
#[derive(Debug)]
pub struct MempalaceMemory<L> {
    local: L,
    settings: MempalaceSettings,
    last_failure_at: Option<u64>,
    clock: MonotonicClock,
}

impl<L> MempalaceMemory<L> {
    #[verifier::type_invariant]
    spec fn inv(self) -> bool {
        settings_in_range(self.settings)
    }

    /// The local store.
    pub closed spec fn local_store(&self) -> L {
        self.local
    }

    /// The bridge settings.
    pub closed spec fn bridge_settings(&self) -> MempalaceSettings {
        self.settings
    }

    /// When the latest failed search ended, unless a search succeeded since.
    pub closed spec fn last_failure(&self) -> Option<u64> {
        self.last_failure_at
    }

    /// A backend over `local` with the given settings and no failure.
    pub fn with_settings(local: L, settings: MempalaceSettings) -> (m: Self)
        requires
            settings_in_range(settings),
        ensures
            m.local_store() == local,
            m.bridge_settings() == settings,
            m.last_failure() is None,
    {
        MempalaceMemory { local, settings, last_failure_at: None, clock: MonotonicClock::start() }
    }

    /// The name of the backend.
    pub fn name(&self) -> (r: &'static str)
        ensures
            r@ == "mempalace"@,
    {
        "mempalace"
    }

    /// The local store.
    pub fn local(&self) -> (r: &L)
        ensures
            *r == self.local_store(),
    {
        &self.local
    }

    /// The bridge settings.
    pub fn settings(&self) -> (r: &MempalaceSettings)
        ensures
            *r == self.bridge_settings(),
            settings_in_range(*r),
    {
        proof {
            use_type_invariant(self);
        }
        &self.settings
    }

    /// Whether the bridge is still cooling down at `now` after a failure.
    pub fn in_failure_cooldown_at(&self, now: u64) -> (r: bool)
        ensures
            r == cooling_down(self.last_failure(), self.bridge_settings().failure_cooldown_ms, now),
    {
        match self.last_failure_at {
            Some(t) => {
                let gap: u64 = if now >= t {
                    now - t
                } else {
                    0
                };
                (gap as u128) < (self.settings.failure_cooldown_ms as u128) * 1_000_000u128
            },
            None => false,
        }
    }

    /// Whether the bridge is cooling down now after a failure.
    pub fn in_failure_cooldown(&self) -> (r: bool)
        ensures
            self.last_failure() is None ==> !r,
            exists|now: u64|
                r == cooling_down(
                    self.last_failure(),
                    self.bridge_settings().failure_cooldown_ms,
                    now,
                ),
    {
        let now = self.clock.now_nanos();
        self.in_failure_cooldown_at(now)
    }

    /// Whether a recall of at most `limit` entries, for which the local
    /// store found `local_hits`, should ask Mempalace at `now`.
    pub fn should_query_bridge_at(&self, limit: usize, local_hits: usize, now: u64) -> (r: bool)
        ensures
            r == wants_bridge(
                limit as nat,
                local_hits as nat,
                self.bridge_settings().local_hit_threshold as nat,
                cooling_down(self.last_failure(), self.bridge_settings().failure_cooldown_ms, now),
            ),
    {
        !(limit == 0 || local_hits >= self.settings.local_hit_threshold
            || self.in_failure_cooldown_at(now))
    }

    /// Whether a recall of at most `limit` entries, for which the local
    /// store found `local_hits`, should ask Mempalace now.
    pub fn should_query_bridge(&self, limit: usize, local_hits: usize) -> (r: bool)
        ensures
            exists|now: u64|
                r == wants_bridge(
                    limit as nat,
                    local_hits as nat,
                    self.bridge_settings().local_hit_threshold as nat,
                    cooling_down(
                        self.last_failure(),
                        self.bridge_settings().failure_cooldown_ms,
                        now,
                    ),
                ),
            limit == 0 || local_hits >= self.bridge_settings().local_hit_threshold ==> !r,
            self.last_failure() is None ==> r == !(limit == 0 || local_hits
                >= self.bridge_settings().local_hit_threshold),
    {
        if limit == 0 || local_hits >= self.settings.local_hit_threshold {
            assert(false == wants_bridge(
                limit as nat,
                local_hits as nat,
                self.bridge_settings().local_hit_threshold as nat,
                cooling_down(self.last_failure(), self.bridge_settings().failure_cooldown_ms, 0),
            ));
            return false;
        }
        let now = self.clock.now_nanos();
        self.should_query_bridge_at(limit, local_hits, now)
    }

    /// The result of a recall that asked Mempalace, given the local hits
    /// and Mempalace's answer, at `now`.  An answer clears the failure state
    /// and is merged after the local hits; a failure is recorded at `now`
    /// and the local hits are returned alone.
    pub fn finish_recall_at(
        &mut self,
        local: Vec<MemoryEntry>,
        remote: Result<Vec<MemoryEntry>, MempalaceError>,
        limit: usize,
        now: u64,
    ) -> (r: Vec<MemoryEntry>)
        ensures
            match remote {
                Ok(hits) => r@ == merge_spec(local@, hits@, limit as nat)
                    && final(self).last_failure() is None,
                Err(_) => r@ == local@ && final(self).last_failure() == Some(now),
            },
            final(self).local_store() == old(self).local_store(),
            final(self).bridge_settings() == old(self).bridge_settings(),
    {
        proof {
            use_type_invariant(&*self);
        }
        match remote {
            Ok(hits) => {
                self.last_failure_at = None;
                merge_results(local, hits, limit)
            },
            Err(_) => {
                self.last_failure_at = Some(now);
                local
            },
        }
    }

    /// As `finish_recall_at`, with a failure recorded at the current time.
    pub fn finish_recall(
        &mut self,
        local: Vec<MemoryEntry>,
        remote: Result<Vec<MemoryEntry>, MempalaceError>,
        limit: usize,
    ) -> (r: Vec<MemoryEntry>)
        ensures
            match remote {
                Ok(hits) => r@ == merge_spec(local@, hits@, limit as nat)
                    && final(self).last_failure() is None,
                Err(_) => r@ == local@ && final(self).last_failure() is Some,
            },
            final(self).local_store() == old(self).local_store(),
            final(self).bridge_settings() == old(self).bridge_settings(),
    {
        let now = self.clock.now_nanos();
        self.finish_recall_at(local, remote, limit, now)
    }
}

/// A recall never asks Mempalace for nothing, nor when the local store
/// already found enough; a failure recorded at `t` keeps Mempalace out of
/// every recall during the cooldown after `t`; and with no failure on
/// record only the limit and the local hits decide.
pub proof fn law_bridge_gate(
    limit: nat,
    local_hits: nat,
    threshold: nat,
    cooldown_ms: u64,
    t: u64,
    now: u64,
)
    ensures
        limit == 0 || local_hits >= threshold ==> forall|c: bool|
            !#[trigger] wants_bridge(limit, local_hits, threshold, c),
        t <= now && now - t < cooldown_ms * NANOS_PER_MILLI ==> !wants_bridge(
            limit,
            local_hits,
            threshold,
            cooling_down(Some(t), cooldown_ms, now),
        ),
        wants_bridge(limit, local_hits, threshold, cooling_down(None, cooldown_ms, now)) == (
        limit > 0 && local_hits < threshold),
{
}
/// Two entries have the same signature only when their keys agree up to
/// case and their contents agree up to case, provided the lower-cased keys
/// hold no NUL character (the separator of key and content in the
/// signature; a key with a NUL could shift the boundary).
pub proof fn law_signature_separates(a: MemoryEntry, b: MemoryEntry)
    requires
        !lowercase(a.key@).contains('\0'),
        !lowercase(b.key@).contains('\0'),
        signature(a) == signature(b),
    ensures
        lowercase(a.key@) == lowercase(b.key@),
        lowercase(a.content@) == lowercase(b.content@),
{
    let ka = lowercase(a.key@);
    let kb = lowercase(b.key@);
    let s = signature(a);
    assert(s == ka + seq!['\0'] + lowercase(a.content@));
    assert(s == kb + seq!['\0'] + lowercase(b.content@));
    if ka.len() < kb.len() {
        assert(s[ka.len() as int] == '\0');
        assert(s[ka.len() as int] == kb[ka.len() as int]);
        assert(kb.contains('\0'));
    } else if kb.len() < ka.len() {
        assert(s[kb.len() as int] == '\0');
        assert(s[kb.len() as int] == ka[kb.len() as int]);
        assert(ka.contains('\0'));
    } else {
        assert(ka =~= s.take(ka.len() as int));
        assert(kb =~= s.take(kb.len() as int));
        assert(lowercase(a.content@) =~= s.skip(ka.len() as int + 1));
        assert(lowercase(b.content@) =~= s.skip(kb.len() as int + 1));
    }
}

/// No two entries of `es` agree in both key and content up to case.
pub open spec fn distinct_memories(es: Seq<MemoryEntry>) -> bool {
    forall|i: int, j: int|
        0 <= i < j < es.len() ==> !(lowercase(#[trigger] es[i].key@) == lowercase(
            #[trigger] es[j].key@,
        ) && lowercase(es[i].content@) == lowercase(es[j].content@))
}

/// No lower-cased key of `es` holds a NUL character.
pub open spec fn keys_free_of_nul(es: Seq<MemoryEntry>) -> bool {
    forall|i: int| 0 <= i < es.len() ==> !lowercase(#[trigger] es[i].key@).contains('\0')
}

proof fn lemma_dedup_keeps_all(es: Seq<MemoryEntry>, seen: Set<Seq<char>>, limit: nat)
    requires
        es.len() <= limit,
        distinct_memories(es),
        keys_free_of_nul(es),
        forall|i: int| 0 <= i < es.len() ==> !seen.contains(signature(#[trigger] es[i])),
    ensures
        dedup_limit(es, seen, limit) == es,
    decreases es.len(),
{
    if es.len() > 0 {
        let t = es.drop_first();
        let s2 = seen.insert(signature(es[0]));
        assert forall|i: int| 0 <= i < t.len() implies !s2.contains(signature(#[trigger] t[i])) by {
            assert(t[i] == es[i + 1]);
            assert(!seen.contains(signature(es[i + 1])));
            if signature(es[i + 1]) == signature(es[0]) {
                law_signature_separates(es[i + 1], es[0]);
                assert(!(lowercase(es[0].key@) == lowercase(es[i + 1].key@) && lowercase(
                    es[0].content@,
                ) == lowercase(es[i + 1].content@)));
            }
        }
        assert forall|i: int, j: int| 0 <= i < j < t.len() implies !(lowercase(
            #[trigger] t[i].key@,
        ) == lowercase(#[trigger] t[j].key@) && lowercase(t[i].content@) == lowercase(
            t[j].content@,
        )) by {
            assert(t[i] == es[i + 1]);
            assert(t[j] == es[j + 1]);
        }
        assert forall|i: int| 0 <= i < t.len() implies !lowercase(#[trigger] t[i].key@).contains(
            '\0',
        ) by {
            assert(t[i] == es[i + 1]);
        }
        lemma_dedup_keeps_all(t, s2, (limit - 1) as nat);
        assert(es =~= seq![es[0]] + t);
    }
}

/// When no two entries of the two lists agree in both key and content up
/// to case (and no lower-cased key holds a NUL), and together they fit the
/// limit, the merge keeps every entry: the primary list, then the
/// secondary one.
pub proof fn law_merge_keeps_distinct(
    primary: Seq<MemoryEntry>,
    secondary: Seq<MemoryEntry>,
    limit: nat,
)
    requires
        distinct_memories(primary + secondary),
        keys_free_of_nul(primary + secondary),
        primary.len() + secondary.len() <= limit,
    ensures
        merge_spec(primary, secondary, limit) == primary + secondary,
{
    lemma_dedup_keeps_all(primary + secondary, Set::empty(), limit);
}

/// Once the clock reads at least the failure cooldown past the latest
/// failure, a recall with a positive limit and fewer local hits than the
/// threshold asks Mempalace again; before that it does not.
pub proof fn law_bridge_retry_after_cooldown(
    limit: nat,
    local_hits: nat,
    threshold: nat,
    cooldown_ms: u64,
    t: u64,
    now: u64,
)
    requires
        limit > 0,
        local_hits < threshold,
        t <= now,
    ensures
        wants_bridge(limit, local_hits, threshold, cooling_down(Some(t), cooldown_ms, now)) <==> now
            - t >= cooldown_ms * NANOS_PER_MILLI,
{
}

} // verus!
