//! The certificates that answer TLS-ALPN-01 challenges while an order runs.
//!
//! For each name under validation the ACME flow installs a TLS context whose
//! certificate carries the digest of the key authorization. The server looks
//! the name up on every handshake that offers `acme-tls/1`, and answers with
//! that context. Once the name is validated the entry is removed.

use vstd::prelude::*;

use crate::namemap;
use crate::namemap::NameMap;
use crate::text;
use crate::text::decimal_string;

verus! {

/// The contexts by name; `C` is the TLS stack's context.
pub struct ChallengeStore<C> {
    inner: NameMap<C>,
}

impl<C> View for ChallengeStore<C> {
    type V = Map<Seq<char>, C>;

    closed spec fn view(&self) -> Map<Seq<char>, C> {
        self.inner@
    }
}

impl<C> ChallengeStore<C> {
    pub fn new() -> (s: Self)
        ensures
            s@ == Map::<Seq<char>, C>::empty(),
    {
        ChallengeStore { inner: NameMap::new() }
    }

    /// Installs the context of `domain`, in place of an earlier one.
    pub fn install(&mut self, domain: &str, ctx: C)
        ensures
            final(self)@ == old(self)@.insert(domain@, ctx),
            final(self)@ == namemap::with_name(old(self)@, domain@, ctx),
    {
        self.inner.insert(domain.to_owned(), ctx);
    }

    /// Removes the context of `domain`, if there is one.
    pub fn remove(&mut self, domain: &str)
        ensures
            final(self)@ == old(self)@.remove(domain@),
            final(self)@ == namemap::without_name(old(self)@, domain@),
    {
        self.inner.remove(domain);
    }

    /// The context of `domain`.
    pub fn get(&self, domain: &str) -> (r: Option<&C>)
        ensures
            match r {
                Some(ctx) => self@.contains_key(domain@) && *ctx == self@[domain@],
                None => !self@.contains_key(domain@),
            },
            match r {
                Some(ctx) => namemap::value_of(self@, domain@) == Some(*ctx),
                None => namemap::value_of(self@, domain@) is None,
            },
    {
        self.inner.get(domain)
    }

    /// The store as text for a log: only how many contexts there are.
    pub fn summary(&self) -> (t: String)
        ensures
            t@ == "ChallengeStore { len: "@ + text::decimal(self@.len()) + " }"@,
            t@ == summary_text(self@.len()),
    {
        let mut t = "ChallengeStore { len: ".to_owned();
        t.append(decimal_string(self.len()).as_str());
        t.append(" }");
        t
    }

    pub fn is_empty(&self) -> (r: bool)
        ensures
            r == (self@ == Map::<Seq<char>, C>::empty()),
    {
        self.inner.is_empty()
    }

    pub fn len(&self) -> (n: usize)
        ensures
            n == self@.len(),
    {
        self.inner.len()
    }
}

impl<C> Default for ChallengeStore<C> {
    fn default() -> (s: Self)
        ensures
            s@ == Map::<Seq<char>, C>::empty(),
    {
        ChallengeStore::new()
    }
}

/// A store with `n` contexts as text for a log.
pub open spec fn summary_text(n: nat) -> Seq<char> {
    "ChallengeStore { len: "@ + text::decimal(n) + " }"@
}

/// The store after the contexts of all `names` were removed.
pub open spec fn without_all<C>(store: Map<Seq<char>, C>, names: Seq<Seq<char>>) -> Map<
    Seq<char>,
    C,
> {
    store.remove_keys(names.to_set())
}

impl<C> ChallengeStore<C> {
    /// Removes the contexts of all `domains`.
    pub fn remove_all(&mut self, domains: &Vec<String>)
        ensures
            final(self)@ == without_all(old(self)@, domains@.map_values(|d: String| d@)),
    {
        let ghost names = domains@.map_values(|d: String| d@);
        let ghost before = self@;
        for i in 0..domains.len()
            invariant
                names == domains@.map_values(|d: String| d@),
                self@ == without_all(before, names.take(i as int)),
        {
            self.remove(domains[i].as_str());
            proof {
                let so_far = names.take(i as int);
                let now = names.take(i + 1);
                assert(now == so_far.push(names[i as int]));
                assert forall|k: Seq<char>| now.to_set().contains(k) == (so_far.to_set().contains(k)
                    || k == names[i as int]) by {
                    if so_far.to_set().contains(k) {
                        let j = choose|j: int| 0 <= j < so_far.len() && so_far[j] == k;
                        assert(now[j] == k);
                    }
                    assert(now[i as int] == names[i as int]);
                }
                assert(self@ == without_all(before, now));
            }
        }
        assert(names.take(names.len() as int) == names);
    }
}

/// A context is found from its installation to its removal; other names are not
/// touched by either.
pub proof fn law_install_then_remove<C>(
    store: Map<Seq<char>, C>,
    domain: Seq<char>,
    ctx: C,
    other: Seq<char>,
)
    requires
        other != domain,
    ensures
        store.insert(domain, ctx).contains_key(domain),
        store.insert(domain, ctx)[domain] == ctx,
        !store.insert(domain, ctx).remove(domain).contains_key(domain),
        store.insert(domain, ctx).contains_key(other) == store.contains_key(other),
        store.contains_key(other) ==> store.insert(domain, ctx)[other] == store[other],
        store.remove(domain).contains_key(other) == store.contains_key(other),
        !store.contains_key(domain) ==> store.insert(domain, ctx).remove(domain) == store,
{
}

/// After all `names` were removed, every other name has the context that it had, and
/// none of `names` has one.
pub proof fn law_only_named_contexts_are_removed<C>(
    store: Map<Seq<char>, C>,
    names: Seq<Seq<char>>,
    name: Seq<char>,
)
    ensures
        without_all(store, names).contains_key(name) <==> store.contains_key(name)
            && !names.contains(name),
        without_all(store, names).contains_key(name) ==> without_all(store, names)[name]
            == store[name],
{
    if names.contains(name) {
        assert(names.to_set().contains(name));
    }
    if names.to_set().contains(name) {
        assert(names.contains(name));
    }
}

/// A log shows the number of contexts, and two stores alike only where they have the
/// same number.
pub proof fn law_summary_counts(a: nat, b: nat)
    ensures
        summary_text(a) == "ChallengeStore { len: "@ + text::decimal(a) + " }"@,
        summary_text(a) == summary_text(b) ==> a == b,
{
    let n = "ChallengeStore { len: "@.len() as int;
    if summary_text(a) == summary_text(b) {
        assert(text::decimal(a) =~= summary_text(a).subrange(n, n + text::decimal(a).len()));
        assert(text::decimal(b) =~= summary_text(b).subrange(n, n + text::decimal(b).len()));
        assert(summary_text(a).len() == n + text::decimal(a).len() + " }"@.len());
        assert(summary_text(b).len() == n + text::decimal(b).len() + " }"@.len());
        text::law_decimal_is_the_number(a);
        text::law_decimal_is_the_number(b);
    }
}

} // verus!
