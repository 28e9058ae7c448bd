//! A per-connection table from pattern text to compiled matcher, so that a
//! pattern is compiled once however often it is used.
use vstd::prelude::*;

use crate::error::RegexError;
use crate::matcher::{compiles, Matcher};

verus! {

/// Compiled matchers keyed by their exact pattern text. A pattern that fails
/// to compile is never stored.
pub struct MatcherCache {
    entries: Vec<Matcher>,
    compilations: u64,
}

impl View for MatcherCache {
    type V = Seq<Seq<char>>;

    /// The cached pattern texts, in the order they were first compiled.
    closed spec fn view(&self) -> Seq<Seq<char>> {
        Seq::new(self.entries@.len(), |i: int| self.entries@[i]@)
    }
}

/// What one `get_or_compile` of `pattern` does to the cache: a cached
/// pattern compiles nothing and changes nothing; otherwise the compiler runs
/// once, and the pattern is added if it compiles.
pub open spec fn lookup_step(
    before: MatcherCache,
    after: MatcherCache,
    pattern: Seq<char>,
) -> bool {
    if before@.contains(pattern) {
        after@ == before@ && after.compile_count() == before.compile_count()
    } else {
        &&& after.compile_count() == if before.compile_count() < u64::MAX {
            before.compile_count() + 1
        } else {
            before.compile_count()
        }
        &&& after@ == if compiles(pattern) {
            before@.push(pattern)
        } else {
            before@
        }
    }
}

/// Asking for the same pattern twice is the same as asking once: both
/// answers are matchers for that text, or both are errors, and the second
/// request neither compiles nor changes the cache.
pub proof fn cache_transparent(
    first: MatcherCache,
    second: MatcherCache,
    third: MatcherCache,
    pattern: Seq<char>,
)
    requires
        first.wf(),
        lookup_step(first, second, pattern),
        lookup_step(second, third, pattern),
    ensures
        compiles(pattern) ==> third@ == second@ && third.compile_count() == second.compile_count(),
        !compiles(pattern) ==> third@ == first@ && !third@.contains(pattern),
{
    if compiles(pattern) {
        if !first@.contains(pattern) {
            assert(second@[second@.len() - 1] == pattern);
        }
        assert(second@.contains(pattern));
    } else {
        assert(!first@.contains(pattern));
    }
}

impl MatcherCache {
    /// Each pattern text is cached at most once, and only if it compiles.
    pub closed spec fn wf(&self) -> bool {
        &&& self@.no_duplicates()
        &&& forall|i: int| 0 <= i < self@.len() ==> compiles(#[trigger] self@[i])
    }

    /// How many times a pattern was handed to the compiler.
    pub closed spec fn compile_count(&self) -> nat {
        self.compilations as nat
    }

    /// An empty cache.
    pub fn new() -> (r: MatcherCache)
        ensures
            r.wf(),
            r@ == Seq::<Seq<char>>::empty(),
            r.compile_count() == 0,
    {
        MatcherCache { entries: Vec::new(), compilations: 0 }
    }

    /// How many patterns are cached.
    pub fn len(&self) -> (r: usize)
        ensures
            r == self@.len(),
    {
        self.entries.len()
    }

    /// How many times a pattern was handed to the compiler, saturating at
    /// the largest `u64`.
    pub fn compilations(&self) -> (r: u64)
        ensures
            r == self.compile_count(),
    {
        self.compilations
    }

    /// Whether `pattern` is cached.
    pub fn contains(&self, pattern: &str) -> (r: bool)
        ensures
            r == self@.contains(pattern@),
    {
        self.position(&pattern.to_owned()).is_some()
    }

    /// Where `pattern` is cached, if it is.
    fn position(&self, pattern: &String) -> (r: Option<usize>)
        ensures
            r matches Some(i) ==> i < self@.len() && self@[i as int] == pattern@,
            r is None ==> !self@.contains(pattern@),
    {
        let mut i: usize = 0;
        while i < self.entries.len()
            invariant
                i <= self.entries@.len(),
                forall|j: int| 0 <= j < i ==> self@[j] != pattern@,
            decreases self.entries@.len() - i,
        {
            if self.entries[i].has_pattern(pattern) {
                return Some(i);
            }
            i = i + 1;
        }
        None
    }

    /// The matcher for `pattern`: the cached one if there is one, else a
    /// fresh compile, which is cached when it succeeds.
    pub fn get_or_compile(&mut self, pattern: &str) -> (r: Result<Matcher, RegexError>)
        requires
            old(self).wf(),
        ensures
            final(self).wf(),
            r.is_ok() == compiles(pattern@),
            r matches Ok(m) ==> m@ == pattern@,
            r matches Err(e) ==> e is Pattern,
            lookup_step(*old(self), *final(self), pattern@),
    {
        let key = pattern.to_owned();
        match self.position(&key) {
            Some(i) => Ok(self.entries[i].share()),
            None => {
                self.compilations = self.compilations.saturating_add(1);
                match Matcher::compile(pattern) {
                    Ok(m) => {
                        let shared = m.share();
                        self.entries.push(m);
                        assert(self@ =~= old(self)@.push(pattern@));
                        Ok(shared)
                    },
                    Err(message) => Err(RegexError::Pattern { pattern: key, message }),
                }
            },
        }
    }
}

} // verus!
