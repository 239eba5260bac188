//! Entitlements granted to users (the in-memory store; the database copy is
//! kept in step outside the library).

use vstd::prelude::*;

use crate::ids::{lemma_uuid_hyphenated_injective, parse_uuid, uuid_hyphenated, uuid_parse_result, uuid_text};
use crate::text::str_eq;

verus! {

/// A product that a user owns.
pub struct Entitlement {
    pub user_id: u128,
    pub sku_id: String,
    /// Grant time, in milliseconds since the Unix epoch.
    pub granted_at: i64,
}

/// Abstract grant: user, product and time.
pub struct GrantView {
    pub user: u128,
    pub sku: Seq<char>,
    pub at: i64,
}

pub open spec fn grant_view(e: Entitlement) -> GrantView {
    GrantView { user: e.user_id, sku: e.sku_id@, at: e.granted_at }
}

/// Whether `user` already owns `sku`.
pub open spec fn owns(s: Seq<GrantView>, user: u128, sku: Seq<char>) -> bool {
    exists|i: int| 0 <= i < s.len() && #[trigger] s[i].user == user && s[i].sku == sku
}

/// The grants after granting `sku` to `user` at `at`: unchanged when the user
/// already owns it, else with the new grant last.
pub open spec fn after_grant(s: Seq<GrantView>, user: u128, sku: Seq<char>, at: i64) -> Seq<GrantView> {
    if owns(s, user, sku) {
        s
    } else {
        s.push(GrantView { user, sku, at })
    }
}

/// The products of the grants whose user id, in hyphenated text, is `user`,
/// in grant order.
pub open spec fn skus_for(s: Seq<GrantView>, user: Seq<char>) -> Seq<Seq<char>>
    decreases s.len(),
{
    if s.len() == 0 {
        Seq::empty()
    } else {
        let rest = skus_for(s.drop_last(), user);
        if uuid_hyphenated(s.last().user) == user {
            rest.push(s.last().sku)
        } else {
            rest
        }
    }
}

/// No user holds the same product twice.
pub open spec fn pairs_unique(s: Seq<GrantView>) -> bool {
    forall|i: int, j: int|
        0 <= i < j < s.len() ==> !(#[trigger] s[i].user == #[trigger] s[j].user && s[i].sku == s[j].sku)
}

/// How many times `x` occurs in `xs`.
pub open spec fn occurrences(xs: Seq<Seq<char>>, x: Seq<char>) -> nat
    decreases xs.len(),
{
    if xs.len() == 0 {
        0
    } else {
        occurrences(xs.drop_last(), x) + if xs.last() == x {
            1nat
        } else {
            0nat
        }
    }
}

/// In-memory list of grants.
pub struct EntitlementStore {
    entries: Vec<Entitlement>,
}

impl EntitlementStore {
    /// The grants, oldest first.
    pub closed spec fn grants(&self) -> Seq<GrantView> {
        self.entries@.map_values(|e: Entitlement| grant_view(e))
    }

    #[verifier::type_invariant]
    spec fn unique(self) -> bool {
        pairs_unique(self.grants())
    }

    pub fn new() -> (s: Self)
        ensures
            s.grants() == Seq::<GrantView>::empty(),
            pairs_unique(s.grants()),
    {
        let s = EntitlementStore { entries: Vec::new() };
        assert(s.grants() =~= Seq::<GrantView>::empty());
        s
    }

    /// Grants `sku_id` to `user_id` at `now`, unless the user owns it already.
    pub fn grant(&mut self, user_id: u128, sku_id: String, now: i64)
        ensures
            final(self).grants() == after_grant(old(self).grants(), user_id, sku_id@, now),
            pairs_unique(final(self).grants()),
    {
        proof {
            use_type_invariant(&*self);
        }
        let ghost g = self.grants();
        let mut i: usize = 0;
        while i < self.entries.len()
            invariant
                g == self.grants(),
                pairs_unique(g),
                i <= self.entries@.len(),
                forall|j: int| 0 <= j < i ==> !(#[trigger] g[j].user == user_id && g[j].sku == sku_id@),
            decreases self.entries@.len() - i,
        {
            if self.entries[i].user_id == user_id && self.entries[i].sku_id == sku_id {
                assert(g[i as int].user == user_id && g[i as int].sku == sku_id@);
                return;
            }
            i = i + 1;
        }
        let mut entries: Vec<Entitlement> = Vec::new();
        std::mem::swap(&mut entries, &mut self.entries);
        entries.push(Entitlement { user_id, sku_id, granted_at: now });
        assert(entries@.map_values(|e: Entitlement| grant_view(e)) =~= g.push(
            GrantView { user: user_id, sku: sku_id@, at: now },
        ));
        self.entries = entries;
        assert(self.grants() =~= g.push(GrantView { user: user_id, sku: sku_id@, at: now }));
    }

    /// The products owned by the user whose id has the hyphenated text
    /// `user_id`, in grant order.
    pub fn list(&self, user_id: &str) -> (r: Vec<String>)
        ensures
            r@.map_values(|s: String| s@) == skus_for(self.grants(), user_id@),
            pairs_unique(self.grants()),
    {
        proof {
            use_type_invariant(self);
        }
        let ghost g = self.grants();
        let mut out: Vec<String> = Vec::new();
        let mut i: usize = 0;
        while i < self.entries.len()
            invariant
                g == self.grants(),
                i <= self.entries@.len(),
                out@.map_values(|s: String| s@) == skus_for(g.take(i as int), user_id@),
            decreases self.entries@.len() - i,
        {
            let e = &self.entries[i];
            let text = uuid_text(e.user_id);
            assert(g.take(i + 1).drop_last() =~= g.take(i as int));
            if str_eq(text.as_str(), user_id) {
                out.push(e.sku_id.clone());
            }
            assert(out@.map_values(|s: String| s@) =~= skus_for(g.take(i + 1), user_id@));
            i = i + 1;
        }
        assert(g.take(self.entries@.len() as int) =~= g);
        out
    }
}

/// Answer to a claim with no valid session: the session header is missing or
/// is not a UUID.
pub const CLAIM_UNAUTHORIZED: u16 = 401;
/// Answer to a granted claim.
pub const CLAIM_OK: u16 = 200;

/// Claims a product for the user named by the session header: 401 when the
/// header is missing or is not a UUID, else the product is granted and the
/// answer is 200.
pub fn claim(store: &mut EntitlementStore, session: Option<&str>, sku: String, now: i64) -> (r: u16)
    ensures
        match session {
            None => r == CLAIM_UNAUTHORIZED && final(store).grants() == old(store).grants(),
            Some(h) => match uuid_parse_result(h@) {
                None => r == CLAIM_UNAUTHORIZED && final(store).grants() == old(store).grants(),
                Some(user) => r == CLAIM_OK && final(store).grants() == after_grant(
                    old(store).grants(),
                    user,
                    sku@,
                    now,
                ),
            },
        },
{
    let header = match session {
        Some(h) => h,
        None => return CLAIM_UNAUTHORIZED,
    };
    match parse_uuid(header) {
        Some(user) => {
            store.grant(user, sku, now);
            CLAIM_OK
        },
        None => CLAIM_UNAUTHORIZED,
    }
}

/// Granting the same product twice to a user has the effect of granting it
/// once.
pub proof fn law_grant_idempotent(s: Seq<GrantView>, user: u128, sku: Seq<char>, t1: i64, t2: i64)
    ensures
        after_grant(after_grant(s, user, sku, t1), user, sku, t2) == after_grant(s, user, sku, t1),
{
    if !owns(s, user, sku) {
        let s1 = s.push(GrantView { user, sku, at: t1 });
        assert(s1[s.len() as int].user == user && s1[s.len() as int].sku == sku);
        assert(owns(s1, user, sku));
    }
}

proof fn lemma_owned_listed(s: Seq<GrantView>, user: u128, sku: Seq<char>)
    requires
        owns(s, user, sku),
    ensures
        skus_for(s, uuid_hyphenated(user)).contains(sku),
    decreases s.len(),
{
    let i = choose|i: int| 0 <= i < s.len() && #[trigger] s[i].user == user && s[i].sku == sku;
    if i == s.len() - 1 {
        let rest = skus_for(s.drop_last(), uuid_hyphenated(user));
        assert(skus_for(s, uuid_hyphenated(user)) == rest.push(sku));
        assert(rest.push(sku)[rest.len() as int] == sku);
    } else {
        assert(s.drop_last()[i].user == user && s.drop_last()[i].sku == sku);
        lemma_owned_listed(s.drop_last(), user, sku);
        let rest = skus_for(s.drop_last(), uuid_hyphenated(user));
        let k = choose|k: int| 0 <= k < rest.len() && rest[k] == sku;
        if uuid_hyphenated(s.last().user) == uuid_hyphenated(user) {
            assert(rest.push(s.last().sku)[k] == sku);
        }
    }
}

/// After a product is granted to a user, listing that user's products (by
/// the hyphenated text of the id) includes it.
pub proof fn law_granted_is_listed(s: Seq<GrantView>, user: u128, sku: Seq<char>, at: i64)
    ensures
        skus_for(after_grant(s, user, sku, at), uuid_hyphenated(user)).contains(sku),
{
    let s1 = after_grant(s, user, sku, at);
    if !owns(s, user, sku) {
        assert(s1[s.len() as int].user == user && s1[s.len() as int].sku == sku);
    }
    lemma_owned_listed(s1, user, sku);
}

proof fn lemma_skus_for_last(s: Seq<GrantView>, user: u128, sku: Seq<char>)
    requires
        s.len() > 0,
    ensures
        occurrences(skus_for(s, uuid_hyphenated(user)), sku) == occurrences(
            skus_for(s.drop_last(), uuid_hyphenated(user)),
            sku,
        ) + if s.last().user == user && s.last().sku == sku {
            1nat
        } else {
            0nat
        },
{
    let t = uuid_hyphenated(user);
    let rest = skus_for(s.drop_last(), t);
    if uuid_hyphenated(s.last().user) == t {
        lemma_uuid_hyphenated_injective(s.last().user, user);
        assert(rest.push(s.last().sku).drop_last() =~= rest);
    } else {
        assert(s.last().user != user);
    }
}

proof fn lemma_not_owned_not_listed(s: Seq<GrantView>, user: u128, sku: Seq<char>)
    requires
        !owns(s, user, sku),
    ensures
        occurrences(skus_for(s, uuid_hyphenated(user)), sku) == 0,
    decreases s.len(),
{
    if s.len() > 0 {
        lemma_skus_for_last(s, user, sku);
        assert forall|i: int| 0 <= i < s.drop_last().len() implies !(#[trigger] s.drop_last()[i].user == user
            && s.drop_last()[i].sku == sku) by {
            assert(s.drop_last()[i] == s[i]);
        }
        lemma_not_owned_not_listed(s.drop_last(), user, sku);
        assert(!(s[s.len() - 1].user == user && s[s.len() - 1].sku == sku));
    }
}

/// Where no user holds a product twice, a product that a user owns is listed
/// exactly once for that user (by the hyphenated text of the id).
pub proof fn law_owned_listed_once(s: Seq<GrantView>, user: u128, sku: Seq<char>)
    requires
        pairs_unique(s),
        owns(s, user, sku),
    ensures
        occurrences(skus_for(s, uuid_hyphenated(user)), sku) == 1,
    decreases s.len(),
{
    let init = s.drop_last();
    lemma_skus_for_last(s, user, sku);
    let n = s.len() - 1;
    if s[n].user == user && s[n].sku == sku {
        assert forall|i: int| 0 <= i < init.len() implies !(#[trigger] init[i].user == user && init[i].sku
            == sku) by {
            assert(init[i] == s[i]);
            assert(!(s[i].user == s[n].user && s[i].sku == s[n].sku));
        }
        lemma_not_owned_not_listed(init, user, sku);
    } else {
        let i = choose|i: int| 0 <= i < s.len() && #[trigger] s[i].user == user && s[i].sku == sku;
        assert(i < n);
        assert(init[i] == s[i]);
        assert(owns(init, user, sku));
        assert forall|a: int, b: int| 0 <= a < b < init.len() implies !(#[trigger] init[a].user
            == #[trigger] init[b].user && init[a].sku == init[b].sku) by {
            assert(init[a] == s[a] && init[b] == s[b]);
        }
        law_owned_listed_once(init, user, sku);
    }
}

/// Granting keeps every (user, product) pair unique, and afterwards the
/// product is listed exactly once for the user, whether or not it was
/// granted before.
pub proof fn law_granted_listed_once(s: Seq<GrantView>, user: u128, sku: Seq<char>, at: i64)
    requires
        pairs_unique(s),
    ensures
        pairs_unique(after_grant(s, user, sku, at)),
        occurrences(skus_for(after_grant(s, user, sku, at), uuid_hyphenated(user)), sku) == 1,
{
    let s1 = after_grant(s, user, sku, at);
    if !owns(s, user, sku) {
        let n = s.len() as int;
        assert(s1[n].user == user && s1[n].sku == sku);
        assert forall|a: int, b: int| 0 <= a < b < s1.len() implies !(#[trigger] s1[a].user
            == #[trigger] s1[b].user && s1[a].sku == s1[b].sku) by {
            if b == n {
                assert(s1[a] == s[a]);
                if s[a].user == user && s[a].sku == sku {
                    assert(owns(s, user, sku));
                }
            } else {
                assert(s1[a] == s[a] && s1[b] == s[b]);
            }
        }
    }
    assert(owns(s1, user, sku)) by {
        if !owns(s, user, sku) {
            assert(s1[s.len() as int].user == user && s1[s.len() as int].sku == sku);
        }
    }
    law_owned_listed_once(s1, user, sku);
}

} // verus!
