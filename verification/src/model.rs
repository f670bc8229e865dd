//! The claims of a license token.

use crate::api::{LicenseFetchResponse, Timestamp};
use crate::clock::unix_now;
use crate::identifier::{hyphenated, identifier_text};
use vstd::prelude::*;
use vstd::string::StringExecFns;

verus! {

/// Two years of 360 days, in microseconds.
pub const MICROS_PER_TWO_YEARS: i64 = 62_208_000_000_000;

/// One second, in microseconds.
pub const MICROS_PER_SECOND: i64 = 1_000_000;

/// The time for which a token is valid, in seconds.
pub open spec fn validity_seconds() -> int {
    MICROS_PER_TWO_YEARS as int / MICROS_PER_SECOND as int
}

/// What a token grants for one license key.
#[derive(Clone, Copy, Debug)]
pub struct LicenseClaim {
    pub count: Option<u8>,
    pub expires_at: Option<Timestamp>,
}

/// The map that keyed entries stand for when they are read from first to
/// last: a later entry replaces an earlier one with the same key.
pub open spec fn keyed<V>(entries: Seq<(Seq<char>, V)>) -> Map<Seq<char>, V>
    decreases entries.len(),
{
    if entries.len() == 0 {
        Map::empty()
    } else {
        keyed(entries.drop_last()).insert(entries.last().0, entries.last().1)
    }
}

/// No key stands at two places of `entries`.
pub open spec fn distinct_keys<V>(entries: Seq<(Seq<char>, V)>) -> bool {
    forall|i: int, j: int|
        0 <= i < j < entries.len() ==> (#[trigger] entries[i]).0 != (#[trigger] entries[j]).0
}

/// The keys of `keyed(entries)` are the keys that occur in `entries`, and
/// there are finitely many of them.
pub proof fn lemma_keyed_domain<V>(entries: Seq<(Seq<char>, V)>)
    ensures
        keyed(entries).dom().finite(),
        forall|key: Seq<char>|
            keyed(entries).dom().contains(key) <==> exists|i: int|
                0 <= i < entries.len() && (#[trigger] entries[i]).0 == key,
    decreases entries.len(),
{
    if entries.len() > 0 {
        let front = entries.drop_last();
        lemma_keyed_domain(front);
        assert forall|key: Seq<char>| keyed(entries).dom().contains(key) implies exists|i: int|
            0 <= i < entries.len() && (#[trigger] entries[i]).0 == key by {
            if key == entries.last().0 {
                assert(entries[entries.len() - 1].0 == key);
            } else {
                let i = choose|i: int| 0 <= i < front.len() && (#[trigger] front[i]).0 == key;
                assert(entries[i].0 == key);
            }
        }
        assert forall|key: Seq<char>|
            (exists|i: int| 0 <= i < entries.len() && (#[trigger] entries[i]).0 == key)
            implies keyed(entries).dom().contains(key) by {
            let i = choose|i: int| 0 <= i < entries.len() && (#[trigger] entries[i]).0 == key;
            if i < entries.len() - 1 {
                assert(front[i].0 == key);
            }
        }
    }
}

/// The entry that no later entry overrides is the one that `keyed` keeps.
pub proof fn lemma_keyed_last_wins<V>(entries: Seq<(Seq<char>, V)>, i: int)
    requires
        0 <= i < entries.len(),
        forall|j: int| i < j < entries.len() ==> (#[trigger] entries[j]).0 != entries[i].0,
    ensures
        keyed(entries).dom().contains(entries[i].0),
        keyed(entries)[entries[i].0] == entries[i].1,
    decreases entries.len(),
{
    if i < entries.len() - 1 {
        let front = entries.drop_last();
        assert(front[i] == entries[i]);
        assert forall|j: int| i < j < front.len() implies (#[trigger] front[j]).0
            != front[i].0 by {
            assert(front[j] == entries[j]);
        }
        lemma_keyed_last_wins(front, i);
        assert(entries[entries.len() - 1].0 != entries[i].0);
    }
}

/// Entries with distinct keys stand for a map with as many keys as entries.
pub proof fn lemma_keyed_distinct_len<V>(entries: Seq<(Seq<char>, V)>)
    requires
        distinct_keys(entries),
    ensures
        keyed(entries).len() == entries.len(),
    decreases entries.len(),
{
    if entries.len() > 0 {
        let front = entries.drop_last();
        let last = entries.len() - 1;
        assert forall|i: int, j: int| 0 <= i < j < front.len() implies (#[trigger] front[i]).0 != (
        #[trigger] front[j]).0 by {
            assert(front[i] == entries[i] && front[j] == entries[j]);
        }
        lemma_keyed_distinct_len(front);
        lemma_keyed_domain(front);
        assert(!keyed(front).dom().contains(entries.last().0)) by {
            if keyed(front).dom().contains(entries.last().0) {
                let i = choose|i: int|
                    0 <= i < front.len() && (#[trigger] front[i]).0 == entries.last().0;
                assert(front[i] == entries[i]);
                assert(entries[i].0 != entries[last].0);
            }
        }
    }
}

/// Replacing the value at a key's only place in `entries` replaces it in the map.
pub proof fn lemma_keyed_update<V>(entries: Seq<(Seq<char>, V)>, i: int, value: V)
    requires
        0 <= i < entries.len(),
        distinct_keys(entries),
    ensures
        distinct_keys(entries.update(i, (entries[i].0, value))),
        keyed(entries.update(i, (entries[i].0, value))) == keyed(entries).insert(
            entries[i].0,
            value,
        ),
{
    let key = entries[i].0;
    let updated = entries.update(i, (key, value));
    assert forall|a: int, b: int| 0 <= a < b < updated.len() implies (#[trigger] updated[a]).0 != (
    #[trigger] updated[b]).0 by {
        assert(updated[a].0 == entries[a].0 && updated[b].0 == entries[b].0);
    }
    lemma_keyed_domain(entries);
    lemma_keyed_domain(updated);
    let expected = keyed(entries).insert(key, value);
    assert forall|k: Seq<char>| keyed(updated).dom().contains(k) implies expected.dom().contains(
        k,
    ) by {
        let a = choose|a: int| 0 <= a < updated.len() && (#[trigger] updated[a]).0 == k;
        assert(entries[a].0 == k);
    }
    assert forall|k: Seq<char>| expected.dom().contains(k) implies keyed(updated).dom().contains(
        k,
    ) by {
        if k == key {
            assert(updated[i].0 == k);
        } else {
            let a = choose|a: int| 0 <= a < entries.len() && (#[trigger] entries[a]).0 == k;
            assert(updated[a].0 == k);
        }
    }
    assert forall|k: Seq<char>| keyed(updated).dom().contains(k) implies keyed(updated)[k]
        == expected[k] by {
        let a = choose|a: int| 0 <= a < updated.len() && (#[trigger] updated[a]).0 == k;
        assert forall|b: int| a < b < updated.len() implies (#[trigger] updated[b]).0
            != updated[a].0 by {}
        lemma_keyed_last_wins(updated, a);
        if a != i {
            assert(updated[a] == entries[a]);
            assert forall|b: int| a < b < entries.len() implies (#[trigger] entries[b]).0
                != entries[a].0 by {}
            lemma_keyed_last_wins(entries, a);
        }
    }
    assert(keyed(updated) =~= expected);
}

/// The keyed entries that stored entries stand for.
pub open spec fn entry_pairs(entries: Seq<(String, LicenseClaim)>) -> Seq<
    (Seq<char>, LicenseClaim),
> {
    entries.map_values(|entry: (String, LicenseClaim)| (entry.0@, entry.1))
}

/// The claims of the licenses of a vessel, one for each license key. It is
/// viewed as the map from license key to claim.
pub struct LicenseClaims {
    entries: Vec<(String, LicenseClaim)>,
}

impl View for LicenseClaims {
    type V = Map<Seq<char>, LicenseClaim>;

    closed spec fn view(&self) -> Self::V {
        keyed(entry_pairs(self.entries@))
    }
}

impl LicenseClaims {
    #[verifier::type_invariant]
    spec fn no_key_twice(&self) -> bool {
        distinct_keys(entry_pairs(self.entries@))
    }

    /// No claims, with room for `capacity` of them.
    pub fn with_capacity(capacity: usize) -> (claims: Self)
        ensures
            claims@ == Map::<Seq<char>, LicenseClaim>::empty(),
    {
        Self { entries: Vec::with_capacity(capacity) }
    }

    /// The place of `key` among the entries.
    fn position(&self, key: &String) -> (place: Option<usize>)
        ensures
            match place {
                Some(i) => i < self.entries.len() && self.entries[i as int].0@ == key@,
                None => forall|i: int|
                    0 <= i < self.entries.len() ==> (#[trigger] self.entries[i]).0@ != key@,
            },
    {
        let mut i: usize = 0;
        while i < self.entries.len()
            invariant
                i <= self.entries.len(),
                forall|j: int| 0 <= j < i ==> (#[trigger] self.entries[j]).0@ != key@,
            decreases self.entries.len() - i,
        {
            if self.entries[i].0 == *key {
                return Some(i);
            }
            i += 1;
        }
        None
    }

    /// The number of license keys that have a claim.
    pub fn len(&self) -> (len: usize)
        ensures
            self@.dom().finite(),
            len == self@.len(),
    {
        proof {
            use_type_invariant(self);
            lemma_keyed_domain(entry_pairs(self.entries@));
            lemma_keyed_distinct_len(entry_pairs(self.entries@));
        }
        self.entries.len()
    }

    /// The claim of the license `key`, if it has one.
    pub fn get(&self, key: &str) -> (claim: Option<&LicenseClaim>)
        ensures
            match claim {
                Some(found) => self@.contains_key(key@) && *found == self@[key@],
                None => !self@.contains_key(key@),
            },
    {
        let wanted = key.to_owned();
        let place = self.position(&wanted);
        proof {
            use_type_invariant(self);
            let pairs = entry_pairs(self.entries@);
            lemma_keyed_domain(pairs);
            match place {
                Some(i) => {
                    assert(pairs[i as int].0 == key@);
                    lemma_keyed_last_wins(pairs, i as int);
                },
                None => {
                    assert forall|i: int| 0 <= i < pairs.len() implies (#[trigger] pairs[i]).0
                        != key@ by {
                        assert(self.entries[i].0@ != key@);
                    }
                },
            }
        }
        match place {
            Some(i) => Some(&self.entries[i].1),
            None => None,
        }
    }

    /// Sets the claim of the license `key`, and returns the claim it had.
    pub fn insert(&mut self, key: String, claim: LicenseClaim) -> (previous: Option<LicenseClaim>)
        ensures
            final(self)@ == old(self)@.insert(key@, claim),
            previous == if old(self)@.contains_key(key@) {
                Some(old(self)@[key@])
            } else {
                None
            },
    {
        let place = self.position(&key);
        let ghost before = entry_pairs(self.entries@);
        proof {
            use_type_invariant(&*self);
            lemma_keyed_domain(before);
        }
        let mut entries = Vec::new();
        std::mem::swap(&mut entries, &mut self.entries);
        let previous = match place {
            Some(i) => {
                proof {
                    assert(before[i as int].0 == key@);
                    lemma_keyed_last_wins(before, i as int);
                    lemma_keyed_update(before, i as int, claim);
                }
                let replaced = entries[i].1;
                entries.set(i, (key, claim));
                assert(entry_pairs(entries@) =~= before.update(i as int, (key@, claim)));
                Some(replaced)
            },
            None => {
                proof {
                    assert forall|i: int| 0 <= i < before.len() implies (#[trigger] before[i]).0
                        != key@ by {
                        assert(entries[i].0@ != key@);
                    }
                }
                entries.push((key, claim));
                assert(entry_pairs(entries@) =~= before.push((key@, claim)));
                assert(entry_pairs(entries@).drop_last() =~= before);
                None
            },
        };
        self.entries = entries;
        previous
    }

    /// The entries, each license key once.
    pub fn entries(&self) -> (entries: &Vec<(String, LicenseClaim)>)
        ensures
            distinct_keys(entry_pairs(entries@)),
            keyed(entry_pairs(entries@)) == self@,
    {
        proof {
            use_type_invariant(self);
        }
        &self.entries
    }
}

/// The claim that a license record gives its license key.
pub open spec fn claim_of(license: LicenseFetchResponse) -> LicenseClaim {
    LicenseClaim { count: license.count, expires_at: license.expires_at }
}

/// License records as keyed entries, in their order.
pub open spec fn license_pairs(licenses: Seq<LicenseFetchResponse>) -> Seq<
    (Seq<char>, LicenseClaim),
> {
    licenses.map_values(|license: LicenseFetchResponse| (license.license_key@, claim_of(license)))
}

/// The claims that license records make: one for each license key, taken
/// from the last record with that key.
pub open spec fn license_claims(licenses: Seq<LicenseFetchResponse>) -> Map<
    Seq<char>,
    LicenseClaim,
> {
    keyed(license_pairs(licenses))
}

/// The subject of a token: the two identifiers with a colon between them.
pub open spec fn subject(customer_id: u128, vessel_id: u128) -> Seq<char> {
    hyphenated(customer_id) + seq![':'] + hyphenated(vessel_id)
}

/// The payload of a token.
pub struct Claims {
    pub issuer: String,
    pub user: String,
    pub audience: String,
    /// Seconds since 1970-01-01T00:00:00Z.
    pub expires_at: i64,
    /// Seconds since 1970-01-01T00:00:00Z.
    pub issued_at: i64,
    pub licenses: LicenseClaims,
}

/// The payload of a token as plain values.
pub struct ClaimSet {
    pub issuer: Seq<char>,
    pub subject: Seq<char>,
    pub audience: Seq<char>,
    pub expires_at: int,
    pub issued_at: int,
    pub licenses: Map<Seq<char>, LicenseClaim>,
}

impl View for Claims {
    type V = ClaimSet;

    open spec fn view(&self) -> ClaimSet {
        ClaimSet {
            issuer: self.issuer@,
            subject: self.user@,
            audience: self.audience@,
            expires_at: self.expires_at as int,
            issued_at: self.issued_at as int,
            licenses: self.licenses@,
        }
    }
}

/// The claims made from `licenses` for the vessel `vessel_id` of the customer
/// `customer_id` when the clock reads `expiry_clock` seconds as the expiry is
/// set and `issue_clock` seconds as the time of issue is.
pub open spec fn claims_at(
    licenses: Seq<LicenseFetchResponse>,
    customer_id: u128,
    vessel_id: u128,
    issuer: Seq<char>,
    audience: Seq<char>,
    expiry_clock: int,
    issue_clock: int,
) -> ClaimSet {
    ClaimSet {
        issuer,
        subject: subject(customer_id, vessel_id),
        audience,
        expires_at: expiry_clock + validity_seconds(),
        issued_at: issue_clock,
        licenses: license_claims(licenses),
    }
}

/// `claims` are the claims made from `licenses` for the vessel `vessel_id` of
/// the customer `customer_id` at some two readings of the clock.
pub open spec fn claims_made(
    claims: ClaimSet,
    licenses: Seq<LicenseFetchResponse>,
    customer_id: u128,
    vessel_id: u128,
    issuer: Seq<char>,
    audience: Seq<char>,
) -> bool {
    exists|expiry_clock: i64, issue_clock: i64|
        claims == claims_at(
            licenses,
            customer_id,
            vessel_id,
            issuer,
            audience,
            expiry_clock as int,
            issue_clock as int,
        )
}

impl Claims {
    /// The claims made from `licenses` now. The clock is read twice, first
    /// for the expiry and then for the time of issue.
    pub fn from_input(
        licenses: Vec<LicenseFetchResponse>,
        customer_id: &u128,
        vessel_id: &u128,
        issuer: String,
        audience: String,
    ) -> (claims: Self)
        ensures
            claims_made(claims@, licenses@, *customer_id, *vessel_id, issuer@, audience@),
    {
        let expiry_clock = unix_now();
        let issue_clock = unix_now();
        Self::from_input_at(
            licenses,
            customer_id,
            vessel_id,
            issuer,
            audience,
            expiry_clock,
            issue_clock,
        )
    }

    /// The claims made from `licenses` at the given readings of the clock.
    pub fn from_input_at(
        licenses: Vec<LicenseFetchResponse>,
        customer_id: &u128,
        vessel_id: &u128,
        issuer: String,
        audience: String,
        expiry_clock: i64,
        issue_clock: i64,
    ) -> (claims: Self)
        requires
            expiry_clock + validity_seconds() <= i64::MAX,
        ensures
            claims@ == claims_at(
                licenses@,
                *customer_id,
                *vessel_id,
                issuer@,
                audience@,
                expiry_clock as int,
                issue_clock as int,
            ),
    {
        let ghost records = licenses@;
        let mut claims = LicenseClaims::with_capacity(licenses.len());
        for license in it: licenses.into_iter()
            invariant
                it.seq() == records,
                claims@ == license_claims(records.take(it.index() as int)),
        {
            proof {
                let done = records.take(it.index() as int);
                let next = records.take(it.index() + 1);
                assert(next.drop_last() =~= done);
                assert(license_pairs(next).drop_last() =~= license_pairs(done));
            }
            claims.insert(
                license.license_key,
                LicenseClaim { count: license.count, expires_at: license.expires_at },
            );
        }
        assert(records.take(records.len() as int) =~= records);
        let user = identifier_text(*customer_id).concat(":").concat(
            identifier_text(*vessel_id).as_str(),
        );
        proof {
            reveal_strlit(":");
            assert(":"@ =~= seq![':']);
        }
        Self {
            issuer,
            user,
            audience,
            // two years
            expires_at: expiry_clock + MICROS_PER_TWO_YEARS / MICROS_PER_SECOND,
            issued_at: issue_clock,
            licenses: claims,
        }
    }
}

/// The license keys that occur in `licenses`.
pub open spec fn license_keys(licenses: Seq<LicenseFetchResponse>) -> Set<Seq<char>> {
    Set::new(
        |key: Seq<char>|
            exists|i: int| 0 <= i < licenses.len() && (#[trigger] licenses[i]).license_key@ == key,
    )
}

/// The claims hold exactly one entry for each license key that occurs in
/// the records, so as many entries as there are distinct keys.
pub proof fn lemma_one_claim_per_license_key(licenses: Seq<LicenseFetchResponse>)
    ensures
        license_claims(licenses).dom() == license_keys(licenses),
        license_keys(licenses).finite(),
        license_claims(licenses).len() == license_keys(licenses).len(),
{
    let pairs = license_pairs(licenses);
    lemma_keyed_domain(pairs);
    assert forall|key: Seq<char>| license_keys(licenses).contains(key) implies keyed(
        pairs,
    ).dom().contains(key) by {
        let i = choose|i: int|
            0 <= i < licenses.len() && (#[trigger] licenses[i]).license_key@ == key;
        assert(pairs[i].0 == key);
    }
    assert forall|key: Seq<char>| keyed(pairs).dom().contains(key) implies license_keys(
        licenses,
    ).contains(key) by {
        let i = choose|i: int| 0 <= i < pairs.len() && (#[trigger] pairs[i]).0 == key;
        assert(licenses[i].license_key@ == key);
    }
    assert(license_claims(licenses).dom() =~= license_keys(licenses));
}

/// Where several records have one license key, the last of them gives the
/// claim.
pub proof fn lemma_last_license_wins(licenses: Seq<LicenseFetchResponse>, i: int)
    requires
        0 <= i < licenses.len(),
        forall|j: int|
            i < j < licenses.len() ==> (#[trigger] licenses[j]).license_key@
                != licenses[i].license_key@,
    ensures
        license_claims(licenses).contains_key(licenses[i].license_key@),
        license_claims(licenses)[licenses[i].license_key@] == claim_of(licenses[i]),
{
    let pairs = license_pairs(licenses);
    assert forall|j: int| i < j < pairs.len() implies (#[trigger] pairs[j]).0 != pairs[i].0 by {
        assert(licenses[j].license_key@ != licenses[i].license_key@);
    }
    lemma_keyed_last_wins(pairs, i);
}

/// A token is valid for two years less the time that passed between the two
/// readings of the clock, and where that time is no more than two years it
/// is issued no later than it expires.
pub proof fn lemma_validity(
    licenses: Seq<LicenseFetchResponse>,
    customer_id: u128,
    vessel_id: u128,
    issuer: Seq<char>,
    audience: Seq<char>,
    expiry_clock: int,
    issue_clock: int,
)
    requires
        issue_clock - expiry_clock <= validity_seconds(),
    ensures
        ({
            let claims = claims_at(
                licenses,
                customer_id,
                vessel_id,
                issuer,
                audience,
                expiry_clock,
                issue_clock,
            );
            &&& claims.issued_at <= claims.expires_at
            &&& claims.expires_at - claims.issued_at == validity_seconds() - (issue_clock
                - expiry_clock)
        }),
        validity_seconds() * MICROS_PER_SECOND == MICROS_PER_TWO_YEARS,
{
}

/// Where the two readings of the clock lie no more than `apart` seconds
/// from each other, the validity of a token differs from two years, which
/// are 62 208 000 seconds, by no more than `apart` seconds.
pub proof fn lemma_validity_within(
    licenses: Seq<LicenseFetchResponse>,
    customer_id: u128,
    vessel_id: u128,
    issuer: Seq<char>,
    audience: Seq<char>,
    expiry_clock: int,
    issue_clock: int,
    apart: int,
)
    requires
        -apart <= issue_clock - expiry_clock <= apart,
    ensures
        ({
            let claims = claims_at(
                licenses,
                customer_id,
                vessel_id,
                issuer,
                audience,
                expiry_clock,
                issue_clock,
            );
            -apart <= claims.expires_at - claims.issued_at - validity_seconds() <= apart
        }),
        validity_seconds() == 62_208_000,
{
}

} // verus!
