//! Screening SQL queries before they reach a database, counting them, and
//! sending reads to replicas in turn and writes to the primary.
use vstd::prelude::*;
use crate::text::{chars_of, string_of, concat, uppercased, to_uppercase, contains_str, contains_seq, has_prefix,
    starts_with, trim_start, trim_start_seq};

verus! {

/// Whether `regex` accepts the pattern.
pub uninterp spec fn regex_valid(pattern: Seq<char>) -> bool;

/// Whether the compiled pattern matches somewhere in the text
/// (`regex::Regex::is_match`).
pub uninterp spec fn regex_is_match(pattern: Seq<char>, text: Seq<char>) -> bool;

/// Compiles the pattern with `regex::Regex::new` and, when that succeeds,
/// tests it on the text with `Regex::is_match`; both results are named.
#[verifier::external_body]
fn regex_test(pattern: &str, text: &str) -> (r: Option<bool>)
    ensures
        r is Some == regex_valid(pattern@),
        r matches Some(b) ==> b == regex_is_match(pattern@, text@),
{
    match regex::Regex::new(pattern) {
        Ok(re) => Some(re.is_match(text)),
        Err(_) => None,
    }
}

/// The dangerous statement patterns, in the order they are tried.
pub open spec fn blocked_patterns() -> Seq<Seq<char>> {
    seq![
        "(?i)\\b(DROP|TRUNCATE)\\s+(TABLE|DATABASE|SCHEMA)"@,
        "(?i)\\bALTER\\s+TABLE\\b.*\\b(DROP|RENAME)\\b"@,
        "(?i)\\bDELETE\\s+FROM\\s+\\w+\\s*$"@,
        "(?i)\\b(GRANT|REVOKE)\\s+(ALL|SUPER|CREATE)"@,
        "(?i)\\bSHUTDOWN\\b"@,
        "(?i)\\bLOAD\\s+DATA\\b"@,
        "(?i)\\bINTO\\s+OUTFILE\\b"@
    ]
}

/// The verdict on a query.
pub enum QueryVerdict {
    Allow { is_read: bool },
    Block { reason: String },
}

/// Counters of screened queries.
pub struct QueryStats {
    pub total_queries: u64,
    pub blocked_queries: u64,
    pub slow_queries: u64,
    pub reads: u64,
    pub writes: u64,
}

/// An UPDATE with SET and no WHERE, judged on the upper-cased query.
pub open spec fn unbounded_update(upper: Seq<char>) -> bool {
    contains_seq(upper, "UPDATE"@) && contains_seq(upper, "SET"@) && !contains_seq(upper, "WHERE"@)
}

/// A read: the upper-cased query, leading whitespace removed, starts with
/// SELECT, SHOW, DESCRIBE or EXPLAIN.
pub open spec fn read_query(q: Seq<char>) -> bool {
    let u = uppercased(trim_start_seq(q));
    has_prefix(u, "SELECT"@) || has_prefix(u, "SHOW"@) || has_prefix(u, "DESCRIBE"@) || has_prefix(u, "EXPLAIN"@)
}

/// The first dangerous pattern that matches, from position `from` on.
pub open spec fn first_match(q: Seq<char>, from: int) -> Option<int>
    decreases blocked_patterns().len() - from,
{
    if from < 0 || from >= blocked_patterns().len() {
        None
    } else if regex_is_match(blocked_patterns()[from], q) {
        Some(from)
    } else {
        first_match(q, from + 1)
    }
}

fn pattern_at(i: usize) -> (p: &'static str)
    requires
        i < 7,
    ensures
        p@ == blocked_patterns()[i as int],
{
    if i == 0 {
        "(?i)\\b(DROP|TRUNCATE)\\s+(TABLE|DATABASE|SCHEMA)"
    } else if i == 1 {
        "(?i)\\bALTER\\s+TABLE\\b.*\\b(DROP|RENAME)\\b"
    } else if i == 2 {
        "(?i)\\bDELETE\\s+FROM\\s+\\w+\\s*$"
    } else if i == 3 {
        "(?i)\\b(GRANT|REVOKE)\\s+(ALL|SUPER|CREATE)"
    } else if i == 4 {
        "(?i)\\bSHUTDOWN\\b"
    } else if i == 5 {
        "(?i)\\bLOAD\\s+DATA\\b"
    } else {
        "(?i)\\bINTO\\s+OUTFILE\\b"
    }
}

/// Screens a query: an UPDATE without WHERE is blocked first, then the
/// first dangerous pattern that matches blocks it with its pattern in the
/// reason; otherwise it is allowed and marked as a read or a write. The
/// patterns are compiled as they are used; all of them must compile.
pub fn inspect_query(query: &str) -> (v: Option<QueryVerdict>)
    ensures
        (forall|i: int| 0 <= i < 7 ==> regex_valid(#[trigger] blocked_patterns()[i])) ==> v is Some,
        unbounded_update(uppercased(query@)) ==> (v matches Some(QueryVerdict::Block { reason }) && reason@
            == "UPDATE without WHERE clause detected"@),
        v is None ==> !unbounded_update(uppercased(query@)) && exists|i: int|
            0 <= i < 7 && !regex_valid(#[trigger] blocked_patterns()[i]) && first_match(query@, 0) == first_match(query@, i),
        v matches Some(verdict) ==> {
            let upper = uppercased(query@);
            if unbounded_update(upper) {
                verdict matches QueryVerdict::Block { reason } && reason@ == "UPDATE without WHERE clause detected"@
            } else {
                match first_match(query@, 0) {
                    Some(i) => verdict matches QueryVerdict::Block { reason } && reason@
                        == "Dangerous query pattern detected: "@ + blocked_patterns()[i],
                    None => verdict == QueryVerdict::Allow { is_read: read_query(query@) },
                }
            }
        },
{
    let up = to_uppercase(query);
    let u = chars_of(up.as_str());
    if contains_str(u.as_slice(), "UPDATE") && contains_str(u.as_slice(), "SET") && !contains_str(u.as_slice(), "WHERE") {
        return Some(QueryVerdict::Block { reason: string_of(chars_of("UPDATE without WHERE clause detected").as_slice()) });
    }
    let mut i: usize = 0;
    while i < 7
        invariant
            i <= 7,
            !unbounded_update(uppercased(query@)),
            first_match(query@, 0) == first_match(query@, i as int),
        decreases 7 - i,
    {
        let p = pattern_at(i);
        match regex_test(p, query) {
            None => {
                assert(!regex_valid(blocked_patterns()[i as int]));
                return None;
            },
            Some(true) => {
                let msg = concat(chars_of("Dangerous query pattern detected: ").as_slice(), chars_of(p).as_slice());
                return Some(QueryVerdict::Block { reason: string_of(msg.as_slice()) });
            },
            Some(false) => {},
        }
        i = i + 1;
    }
    let t = trim_start(chars_of(query).as_slice());
    let tu = to_uppercase(string_of(t.as_slice()).as_str());
    let tc = chars_of(tu.as_str());
    let is_read = starts_with(tc.as_slice(), chars_of("SELECT").as_slice()) || starts_with(tc.as_slice(), chars_of("SHOW").as_slice())
        || starts_with(tc.as_slice(), chars_of("DESCRIBE").as_slice()) || starts_with(
        tc.as_slice(),
        chars_of("EXPLAIN").as_slice(),
    );
    Some(QueryVerdict::Allow { is_read })
}

fn sat_inc(x: u64) -> (r: u64)
    ensures
        r == if x == u64::MAX { u64::MAX } else { (x + 1) as u64 },
{
    x.saturating_add(1)
}

impl QueryStats {
    pub fn new() -> (s: Self)
        ensures
            s.total_queries == 0 && s.blocked_queries == 0 && s.slow_queries == 0 && s.reads == 0 && s.writes == 0,
    {
        QueryStats { total_queries: 0, blocked_queries: 0, slow_queries: 0, reads: 0, writes: 0 }
    }

    /// Counts an executed query as a read or a write (saturating).
    pub fn record_query(&mut self, is_read: bool)
        ensures
            final(self).total_queries == (if old(self).total_queries == u64::MAX { u64::MAX } else { (old(self).total_queries + 1) as u64 }),
            is_read ==> final(self).reads == (if old(self).reads == u64::MAX { u64::MAX } else { (old(self).reads + 1) as u64 }) && final(self).writes == old(self).writes,
            !is_read ==> final(self).writes == (if old(self).writes == u64::MAX { u64::MAX } else { (old(self).writes + 1) as u64 }) && final(self).reads == old(self).reads,
            final(self).blocked_queries == old(self).blocked_queries,
            final(self).slow_queries == old(self).slow_queries,
    {
        self.total_queries = sat_inc(self.total_queries);
        if is_read {
            self.reads = sat_inc(self.reads);
        } else {
            self.writes = sat_inc(self.writes);
        }
    }

    /// Counts a slow query (saturating).
    pub fn record_slow(&mut self)
        ensures
            final(self).slow_queries == (if old(self).slow_queries == u64::MAX { u64::MAX } else { (old(self).slow_queries + 1) as u64 }),
            final(self).total_queries == old(self).total_queries,
            final(self).blocked_queries == old(self).blocked_queries,
            final(self).reads == old(self).reads,
            final(self).writes == old(self).writes,
    {
        self.slow_queries = sat_inc(self.slow_queries);
    }

    /// A copy of the counters.
    pub fn copy(&self) -> (r: Self)
        ensures
            r == *self,
    {
        QueryStats {
            total_queries: self.total_queries,
            blocked_queries: self.blocked_queries,
            slow_queries: self.slow_queries,
            reads: self.reads,
            writes: self.writes,
        }
    }
}

/// Routes reads to the replicas in turn and everything else to the primary.
pub struct ReadWriteSplitter {
    pub primary: String,
    pub replicas: Vec<String>,
    current_replica: usize,
}

impl ReadWriteSplitter {
    pub fn new(primary: String, replicas: Vec<String>) -> (s: Self)
        ensures
            s.primary_of() == primary@,
            s.replicas_of() == replicas@.map_values(|r: String| r@),
            s.turn() == 0,
    {
        ReadWriteSplitter { primary, replicas, current_replica: 0 }
    }

    /// The primary's address.
    pub closed spec fn primary_of(&self) -> Seq<char> {
        self.primary@
    }

    /// The replicas' addresses.
    pub closed spec fn replicas_of(&self) -> Seq<Seq<char>> {
        self.replicas@.map_values(|r: String| r@)
    }

    /// The replica counter.
    pub closed spec fn turn(&self) -> usize {
        self.current_replica
    }

    /// The target of a query: for a read with replicas, the replica at the
    /// counter modulo their number, the counter advancing (wrapping);
    /// otherwise the primary.
    pub fn route(&mut self, is_read: bool) -> (target: String)
        ensures
            final(self).primary_of() == old(self).primary_of(),
            final(self).replicas_of() == old(self).replicas_of(),
            is_read && old(self).replicas_of().len() > 0 ==> {
                &&& target@ == old(self).replicas_of()[old(self).turn() as int % old(self).replicas_of().len() as int]
                &&& final(self).turn() == (if old(self).turn() == usize::MAX { 0 } else { old(self).turn() + 1 })
            },
            !(is_read && old(self).replicas_of().len() > 0) ==> target@ == old(self).primary_of() && final(self).turn()
                == old(self).turn(),
    {
        if is_read && self.replicas.len() > 0 {
            let idx = self.current_replica % self.replicas.len();
            self.current_replica = if self.current_replica == usize::MAX { 0 } else { self.current_replica + 1 };
            string_of(chars_of(self.replicas[idx].as_str()).as_slice())
        } else {
            string_of(chars_of(self.primary.as_str()).as_slice())
        }
    }
}

} // verus!
