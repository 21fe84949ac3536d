//! The credential store: records by id, and for each owner the ordered set
//! of the ids of its records.

use vstd::prelude::*;
use vstd::slice::slice_subrange;
use vstd::string::*;
use vstd::utf8::encode_utf8;
use crate::decimal::{decimal_digits, digit_char, u64_to_decimal};
use crate::types::{texts, CircuitType, Credential, CredentialView};

verus! {

/// Storage key prefixes. Each collection of the registry has its own.
#[derive(Debug)]
pub enum StorageKey {
    VerificationKeys,
    Credentials,
    CredentialsByOwner,
    OwnerCredentials { owner_hash: Vec<u8> },
    Admins,
    RevokedCredentials,
}

/// The four bytes of `n`, least significant first.
pub open spec fn le32(n: nat) -> Seq<u8> {
    seq![
        (n % 256) as u8,
        ((n / 256) % 256) as u8,
        ((n / 65536) % 256) as u8,
        ((n / 16777216) % 256) as u8,
    ]
}

impl StorageKey {
    /// The rank of the key's variant.
    pub open spec fn rank(self) -> u8 {
        match self {
            StorageKey::VerificationKeys => 0,
            StorageKey::Credentials => 1,
            StorageKey::CredentialsByOwner => 2,
            StorageKey::OwnerCredentials { .. } => 3,
            StorageKey::Admins => 4,
            StorageKey::RevokedCredentials => 5,
        }
    }

    /// The byte prefix of the key: the rank of its variant, followed, for
    /// an owner's set, by the length of the owner's hash in four bytes and
    /// the hash itself.
    pub open spec fn prefix(self) -> Seq<u8> {
        match self {
            StorageKey::OwnerCredentials { owner_hash } => seq![3u8] + le32(owner_hash@.len())
                + owner_hash@,
            _ => seq![self.rank()],
        }
    }

    /// The byte prefix under which the collection of this key is stored.
    pub fn to_bytes(&self) -> (r: Vec<u8>)
        requires
            self matches StorageKey::OwnerCredentials { owner_hash } ==> owner_hash@.len()
                <= u32::MAX,
        ensures
            r@ == self.prefix(),
    {
        let mut out: Vec<u8> = Vec::new();
        match self {
            StorageKey::VerificationKeys => {
                out.push(0);
            },
            StorageKey::Credentials => {
                out.push(1);
            },
            StorageKey::CredentialsByOwner => {
                out.push(2);
            },
            StorageKey::OwnerCredentials { owner_hash } => {
                let n: usize = owner_hash.len();
                out.push(3);
                out.push((n % 256) as u8);
                out.push(((n / 256) % 256) as u8);
                out.push(((n / 65536) % 256) as u8);
                out.push(((n / 16777216) % 256) as u8);
                let mut i: usize = 0;
                while i < n
                    invariant
                        0 <= i <= n,
                        n == owner_hash@.len(),
                        out@ == seq![3u8] + le32(n as nat) + owner_hash@.subrange(0, i as int),
                    decreases n - i,
                {
                    out.push(owner_hash[i]);
                    assert(owner_hash@.subrange(0, i + 1) =~= owner_hash@.subrange(0, i as int).push(
                        owner_hash@[i as int],
                    ));
                    assert(out@ =~= seq![3u8] + le32(n as nat) + owner_hash@.subrange(0, i + 1));
                    i += 1;
                }
                assert(owner_hash@.subrange(0, n as int) =~= owner_hash@);
            },
            StorageKey::Admins => {
                out.push(4);
            },
            StorageKey::RevokedCredentials => {
                out.push(5);
            },
        }
        assert(out@ =~= self.prefix());
        out
    }
}

/// The key of the set that holds the credential ids of `owner`: it carries
/// the SHA-256 digest of the owner's name, so that the sets of different
/// owners are stored under different prefixes.
pub fn owner_storage_key(owner: &String) -> (r: StorageKey)
    ensures
        r matches StorageKey::OwnerCredentials { owner_hash } && owner_hash@ == sha256_digest(
            encode_utf8(owner@),
        ),
{
    StorageKey::OwnerCredentials { owner_hash: sha256(owner.as_str().as_bytes()) }
}

/// Keys of different variants have prefixes that differ in their first
/// byte, so that no collection's keys begin with another's prefix.
pub proof fn lemma_prefixes_disjoint(a: StorageKey, b: StorageKey)
    requires
        a.rank() != b.rank(),
    ensures
        a.prefix()[0] != b.prefix()[0],
        a.prefix() != b.prefix(),
{
    assert(a.prefix()[0] == a.rank());
    assert(b.prefix()[0] == b.rank());
}

/// The lowercase hexadecimal digit for `d`, for `d` below sixteen.
pub open spec fn hex_digit(d: nat) -> char {
    if d < 10 {
        digit_char(d)
    } else if d == 10 {
        'a'
    } else if d == 11 {
        'b'
    } else if d == 12 {
        'c'
    } else if d == 13 {
        'd'
    } else if d == 14 {
        'e'
    } else {
        'f'
    }
}

/// The lowercase hexadecimal text of `bytes`: two digits for each byte,
/// the high half first.
pub open spec fn hex_text(bytes: Seq<u8>) -> Seq<char>
    decreases bytes.len(),
{
    if bytes.len() == 0 {
        Seq::empty()
    } else {
        hex_text(bytes.drop_last()).push(hex_digit((bytes.last() / 16) as nat)).push(
            hex_digit((bytes.last() % 16) as nat),
        )
    }
}

/// `c` is a lowercase hexadecimal digit.
pub open spec fn is_lower_hex_digit(c: char) -> bool {
    ('0' <= c && c <= '9') || ('a' <= c && c <= 'f')
}

/// The hexadecimal text of `bytes` has two lowercase hexadecimal digits
/// for each byte.
pub proof fn lemma_hex_text_shape(bytes: Seq<u8>)
    ensures
        hex_text(bytes).len() == 2 * bytes.len(),
        forall|i: int| 0 <= i < hex_text(bytes).len() ==> is_lower_hex_digit(#[trigger] hex_text(bytes)[i]),
    decreases bytes.len(),
{
    if bytes.len() > 0 {
        lemma_hex_text_shape(bytes.drop_last());
        let before = hex_text(bytes.drop_last());
        let hi = hex_digit((bytes.last() / 16) as nat);
        let lo = hex_digit((bytes.last() % 16) as nat);
        assert(is_lower_hex_digit(hi));
        assert(is_lower_hex_digit(lo));
        assert forall|i: int| 0 <= i < hex_text(bytes).len() implies is_lower_hex_digit(
            #[trigger] hex_text(bytes)[i],
        ) by {
            if i < before.len() {
                assert(hex_text(bytes)[i] == before[i]);
            }
        }
    }
}

/// Calls `hex::encode`, which writes each byte as two lowercase
/// hexadecimal digits, the high half first.
#[verifier::external_body]
fn hex_encode(bytes: &[u8]) -> (r: String)
    ensures
        r@ == hex_text(bytes@),
{
    hex::encode(bytes)
}

/// The text whose digest names a credential: owner, circuit key and nonce,
/// separated by colons.
pub open spec fn credential_hash_text(owner: Seq<char>, circuit_type: CircuitType, nonce: u64) -> Seq<
    char,
> {
    owner + ":"@ + circuit_type.key() + ":"@ + decimal_digits(nonce as nat)
}

/// The SHA-256 digest of `bytes`.
pub uninterp spec fn sha256_digest(bytes: Seq<u8>) -> Seq<u8>;

/// Calls `near_sdk::env::sha256`, which returns the SHA-256 digest of the
/// bytes it is given, 32 bytes long.
#[verifier::external_body]
fn sha256(bytes: &[u8]) -> (r: Vec<u8>)
    ensures
        r@ == sha256_digest(bytes@),
        r@.len() == 32,
{
    near_sdk::env::sha256(bytes)
}

/// The credential id for a digest: `cred-` and the hexadecimal text of the
/// digest's first sixteen bytes.
pub open spec fn credential_id_text(digest: Seq<u8>) -> Seq<char> {
    "cred-"@ + hex_text(digest.subrange(0, 16))
}

/// The shape of a credential id: `cred-` followed by 32 lowercase
/// hexadecimal digits, 37 characters in all.
pub open spec fn is_credential_id(id: Seq<char>) -> bool {
    &&& id.len() == 37
    &&& id.subrange(0, 5) == "cred-"@
    &&& forall|i: int| 5 <= i < 37 ==> is_lower_hex_digit(#[trigger] id[i])
}

/// The id for a digest of at least sixteen bytes has the shape of a
/// credential id.
pub proof fn lemma_credential_id_text_shape(digest: Seq<u8>)
    requires
        digest.len() >= 16,
    ensures
        is_credential_id(credential_id_text(digest)),
{
    reveal_strlit("cred-");
    let hex = hex_text(digest.subrange(0, 16));
    lemma_hex_text_shape(digest.subrange(0, 16));
    let id = credential_id_text(digest);
    assert(id.len() == 37);
    assert(id.subrange(0, 5) =~= "cred-"@);
    assert forall|i: int| 5 <= i < 37 implies is_lower_hex_digit(#[trigger] id[i]) by {
        assert(id[i] == hex[i - 5]);
    }
}

/// The id of the credential that `owner` stores for `circuit_type` under
/// `nonce`: derived from the SHA-256 digest of the hash text in UTF-8.
pub open spec fn credential_id_of(owner: Seq<char>, circuit_type: CircuitType, nonce: u64) -> Seq<
    char,
> {
    credential_id_text(
        sha256_digest(encode_utf8(credential_hash_text(owner, circuit_type, nonce))),
    )
}

/// The text to be hashed for the credential that `owner` stores for
/// `circuit_type` under `nonce`.
pub fn credential_hash_input(owner: &String, circuit_type: &CircuitType, nonce: u64) -> (r: String)
    ensures
        r@ == credential_hash_text(owner@, *circuit_type, nonce),
{
    let mut s = owner.clone();
    s.append(":");
    s.append(circuit_type.as_key().as_str());
    s.append(":");
    s.append(u64_to_decimal(nonce).as_str());
    s
}

/// The credential id for the digest of a hash text.
pub fn credential_id_from_digest(digest: &[u8]) -> (r: String)
    requires
        digest@.len() >= 16,
    ensures
        r@ == credential_id_text(digest@),
        is_credential_id(r@),
{
    proof {
        lemma_credential_id_text_shape(digest@);
    }
    let mut s = String::from_str("cred-");
    s.append(hex_encode(slice_subrange(digest, 0, 16)).as_str());
    s
}

/// Generate a unique credential id from a monotonic nonce. A nonce, not a
/// block height, keeps the ids of credentials stored in one block apart.
/// The id depends on the three arguments alone; it is `cred-` followed by
/// 32 lowercase hexadecimal digits.
pub fn generate_credential_id(owner: &String, circuit_type: &CircuitType, nonce: u64) -> (r: String)
    ensures
        r@ == credential_id_of(owner@, *circuit_type, nonce),
        is_credential_id(r@),
        r@.len() == 37,
{
    let hash_input = credential_hash_input(owner, circuit_type, nonce);
    let hash = sha256(hash_input.as_str().as_bytes());
    credential_id_from_digest(hash.as_slice())
}

/// The ids of the credentials of one owner, oldest first.
#[derive(Debug)]
pub struct OwnerCredentials {
    pub owner: String,
    pub ids: Vec<String>,
}

/// An `OwnerCredentials` with its texts as character sequences.
pub struct OwnerSetView {
    pub owner: Seq<char>,
    pub ids: Seq<Seq<char>>,
}

impl View for OwnerCredentials {
    type V = OwnerSetView;

    open spec fn view(&self) -> OwnerSetView {
        OwnerSetView { owner: self.owner@, ids: texts(self.ids@) }
    }
}

/// The views of a sequence of credentials.
pub open spec fn record_views(creds: Seq<Credential>) -> Seq<CredentialView> {
    Seq::new(creds.len(), |i: int| creds[i]@)
}

/// The views of a sequence of owner sets.
pub open spec fn set_views(index: Seq<OwnerCredentials>) -> Seq<OwnerSetView> {
    Seq::new(index.len(), |i: int| index[i]@)
}

/// The record stored under `id`, if any.
pub open spec fn lookup(records: Seq<CredentialView>, id: Seq<char>) -> Option<CredentialView>
    decreases records.len(),
{
    if records.len() == 0 {
        None
    } else if records.last().id == id {
        Some(records.last())
    } else {
        lookup(records.drop_last(), id)
    }
}

/// The ids in the set of `owner`, oldest first; empty where it has no set.
pub open spec fn owner_ids(index: Seq<OwnerSetView>, owner: Seq<char>) -> Seq<Seq<char>>
    decreases index.len(),
{
    if index.len() == 0 {
        Seq::empty()
    } else if index.last().owner == owner {
        index.last().ids
    } else {
        owner_ids(index.drop_last(), owner)
    }
}

/// No two records share an id.
pub open spec fn ids_distinct(records: Seq<CredentialView>) -> bool {
    forall|i: int, j: int| 0 <= i < j < records.len() ==> records[i].id != records[j].id
}

/// No two sets share an owner.
pub open spec fn owners_distinct(index: Seq<OwnerSetView>) -> bool {
    forall|i: int, j: int| 0 <= i < j < index.len() ==> index[i].owner != index[j].owner
}

/// Every id in an owner's set names a record of that owner.
pub open spec fn index_sound(records: Seq<CredentialView>, index: Seq<OwnerSetView>) -> bool {
    forall|owner: Seq<char>, k: int|
        0 <= k < owner_ids(index, owner).len() ==> {
            let r = lookup(records, #[trigger] owner_ids(index, owner)[k]);
            r is Some && r->0.owner == owner
        }
}

/// Every record is listed in the set of its owner.
pub open spec fn index_complete(records: Seq<CredentialView>, index: Seq<OwnerSetView>) -> bool {
    forall|id: Seq<char>|
        (#[trigger] lookup(records, id)) is Some ==> owner_ids(
            index,
            lookup(records, id)->0.owner,
        ).contains(id)
}

/// No set lists an id twice.
pub open spec fn sets_distinct(index: Seq<OwnerSetView>) -> bool {
    forall|owner: Seq<char>| (#[trigger] owner_ids(index, owner)).no_duplicates()
}

/// The store's invariant, on views.
pub open spec fn store_consistent(records: Seq<CredentialView>, index: Seq<OwnerSetView>) -> bool {
    &&& ids_distinct(records)
    &&& owners_distinct(index)
    &&& index_sound(records, index)
    &&& index_complete(records, index)
    &&& sets_distinct(index)
}

/// The store's invariant.
pub open spec fn store_wf(creds: Seq<Credential>, index: Seq<OwnerCredentials>) -> bool {
    store_consistent(record_views(creds), set_views(index))
}

/// A record found by `lookup` under `id` has that id and is one of the records.
pub proof fn lemma_lookup_some(records: Seq<CredentialView>, id: Seq<char>)
    ensures
        lookup(records, id) is Some ==> lookup(records, id)->0.id == id && records.contains(
            lookup(records, id)->0,
        ),
        lookup(records, id) is None ==> forall|i: int|
            0 <= i < records.len() ==> (#[trigger] records[i]).id != id,
    decreases records.len(),
{
    if records.len() > 0 {
        if records.last().id == id {
            assert(records[records.len() - 1] == records.last());
        } else {
            lemma_lookup_some(records.drop_last(), id);
            if lookup(records, id) is Some {
                let r = lookup(records, id)->0;
                let i = choose|i: int| 0 <= i < records.drop_last().len() && records.drop_last()[i] == r;
                assert(records[i] == r);
            } else {
                assert forall|i: int| 0 <= i < records.len() implies (#[trigger] records[i]).id
                    != id by {
                    if i < records.len() - 1 {
                        assert(records.drop_last()[i] == records[i]);
                    }
                }
            }
        }
    }
}

/// With distinct ids, `lookup` under the id of the record at `i` finds that record.
pub proof fn lemma_lookup_at(records: Seq<CredentialView>, i: int)
    requires
        ids_distinct(records),
        0 <= i < records.len(),
    ensures
        lookup(records, records[i].id) == Some(records[i]),
    decreases records.len(),
{
    if i == records.len() - 1 {
    } else {
        assert(records[i].id != records[records.len() - 1].id);
        let p = records.drop_last();
        assert(ids_distinct(p)) by {
            assert forall|a: int, b: int| 0 <= a < b < p.len() implies p[a].id != p[b].id by {
                assert(p[a] == records[a] && p[b] == records[b]);
            }
        }
        assert(p[i] == records[i]);
        lemma_lookup_at(p, i);
    }
}

/// Taking the record at `i` out removes its id from the map and leaves the
/// other ids alone.
pub proof fn lemma_lookup_remove(records: Seq<CredentialView>, i: int, id: Seq<char>)
    requires
        ids_distinct(records),
        0 <= i < records.len(),
    ensures
        ids_distinct(records.remove(i)),
        lookup(records.remove(i), id) == if id == records[i].id {
            None
        } else {
            lookup(records, id)
        },
{
    let q = records.remove(i);
    assert(ids_distinct(q)) by {
        assert forall|a: int, b: int| 0 <= a < b < q.len() implies q[a].id != q[b].id by {
            let a2 = if a < i { a } else { a + 1 };
            let b2 = if b < i { b } else { b + 1 };
            assert(q[a] == records[a2] && q[b] == records[b2]);
        }
    }
    lemma_lookup_some(q, id);
    lemma_lookup_some(records, id);
    if id == records[i].id {
        if lookup(q, id) is Some {
            let r = lookup(q, id)->0;
            let a = choose|a: int| 0 <= a < q.len() && q[a] == r;
            let a2 = if a < i { a } else { a + 1 };
            assert(q[a] == records[a2]);
            assert(false);
        }
    } else {
        if lookup(records, id) is Some {
            let r = lookup(records, id)->0;
            let a = choose|a: int| 0 <= a < records.len() && records[a] == r;
            assert(a != i);
            let a2 = if a < i { a } else { a - 1 };
            assert(q[a2] == records[a]);
            lemma_lookup_at(q, a2);
        } else {
            if lookup(q, id) is Some {
                let r = lookup(q, id)->0;
                let a = choose|a: int| 0 <= a < q.len() && q[a] == r;
                let a2 = if a < i { a } else { a + 1 };
                assert(q[a] == records[a2]);
                assert(false);
            }
        }
    }
}

/// With distinct owners, the set at `s` is the set of its owner.
pub proof fn lemma_owner_ids_at(index: Seq<OwnerSetView>, s: int)
    requires
        owners_distinct(index),
        0 <= s < index.len(),
    ensures
        owner_ids(index, index[s].owner) == index[s].ids,
    decreases index.len(),
{
    if s == index.len() - 1 {
    } else {
        assert(index[s].owner != index[index.len() - 1].owner);
        let p = index.drop_last();
        assert(owners_distinct(p)) by {
            assert forall|a: int, b: int| 0 <= a < b < p.len() implies p[a].owner
                != p[b].owner by {
                assert(p[a] == index[a] && p[b] == index[b]);
            }
        }
        assert(p[s] == index[s]);
        lemma_owner_ids_at(p, s);
    }
}

/// An owner without a set has no ids.
pub proof fn lemma_owner_ids_absent(index: Seq<OwnerSetView>, owner: Seq<char>)
    requires
        forall|s: int| 0 <= s < index.len() ==> (#[trigger] index[s]).owner != owner,
    ensures
        owner_ids(index, owner) == Seq::<Seq<char>>::empty(),
    decreases index.len(),
{
    if index.len() > 0 {
        assert(index[index.len() - 1].owner != owner);
        let p = index.drop_last();
        assert forall|s: int| 0 <= s < p.len() implies (#[trigger] p[s]).owner != owner by {
            assert(p[s] == index[s]);
        }
        lemma_owner_ids_absent(p, owner);
    }
}

/// Replacing the set at `s` by one of the same owner changes that owner's
/// ids and no others.
pub proof fn lemma_owner_ids_update(
    index: Seq<OwnerSetView>,
    s: int,
    set: OwnerSetView,
    owner: Seq<char>,
)
    requires
        owners_distinct(index),
        0 <= s < index.len(),
        set.owner == index[s].owner,
    ensures
        owners_distinct(index.update(s, set)),
        owner_ids(index.update(s, set), owner) == if owner == set.owner {
            set.ids
        } else {
            owner_ids(index, owner)
        },
    decreases index.len(),
{
    let q = index.update(s, set);
    assert(owners_distinct(q)) by {
        assert forall|a: int, b: int| 0 <= a < b < q.len() implies q[a].owner != q[b].owner by {
            assert(q[a].owner == index[a].owner && q[b].owner == index[b].owner);
        }
    }
    if owner == set.owner {
        lemma_owner_ids_at(q, s);
    } else {
        if s == index.len() - 1 {
            assert(q.drop_last() =~= index.drop_last());
        } else {
            let p = index.drop_last();
            assert(owners_distinct(p)) by {
                assert forall|a: int, b: int| 0 <= a < b < p.len() implies p[a].owner
                    != p[b].owner by {
                    assert(p[a] == index[a] && p[b] == index[b]);
                }
            }
            assert(p[s] == index[s]);
            lemma_owner_ids_update(p, s, set, owner);
            assert(q.drop_last() =~= p.update(s, set));
            assert(q.last() == index.last());
        }
    }
}

/// The position of the record with the given id.
pub fn find_credential(creds: &Vec<Credential>, id: &String) -> (r: Option<usize>)
    ensures
        match r {
            Some(i) => i < creds.len() && creds[i as int].id@ == id@,
            None => forall|j: int| 0 <= j < creds.len() ==> (#[trigger] creds[j]).id@ != id@,
        },
{
    let mut i: usize = 0;
    while i < creds.len()
        invariant
            0 <= i <= creds.len(),
            forall|j: int| 0 <= j < i ==> (#[trigger] creds[j]).id@ != id@,
        decreases creds.len() - i,
    {
        if creds[i].id == *id {
            return Some(i);
        }
        i += 1;
    }
    None
}

/// The position of the set of the given owner.
pub fn find_owner(index: &Vec<OwnerCredentials>, owner: &String) -> (r: Option<usize>)
    ensures
        match r {
            Some(s) => s < index.len() && index[s as int].owner@ == owner@,
            None => forall|j: int| 0 <= j < index.len() ==> (#[trigger] index[j]).owner@ != owner@,
        },
{
    let mut i: usize = 0;
    while i < index.len()
        invariant
            0 <= i <= index.len(),
            forall|j: int| 0 <= j < i ==> (#[trigger] index[j]).owner@ != owner@,
        decreases index.len() - i,
    {
        if index[i].owner == *owner {
            return Some(i);
        }
        i += 1;
    }
    None
}

/// The position of a string in a list.
pub fn find_string(list: &Vec<String>, s: &String) -> (r: Option<usize>)
    ensures
        match r {
            Some(k) => k < list.len() && list[k as int]@ == s@,
            None => forall|j: int| 0 <= j < list.len() ==> (#[trigger] list[j])@ != s@,
        },
{
    let mut i: usize = 0;
    while i < list.len()
        invariant
            0 <= i <= list.len(),
            forall|j: int| 0 <= j < i ==> (#[trigger] list[j])@ != s@,
        decreases list.len() - i,
    {
        if list[i] == *s {
            return Some(i);
        }
        i += 1;
    }
    None
}


/// `ids` without `id`.
pub open spec fn remove_id(ids: Seq<Seq<char>>, id: Seq<char>) -> Seq<Seq<char>> {
    if ids.contains(id) {
        ids.remove(ids.index_of(id))
    } else {
        ids
    }
}

/// The new store is the old one with the record `c` added under a fresh id,
/// and that id appended to the set of the record's owner.
pub open spec fn inserted(
    old_records: Seq<CredentialView>,
    old_index: Seq<OwnerSetView>,
    new_records: Seq<CredentialView>,
    new_index: Seq<OwnerSetView>,
    c: CredentialView,
) -> bool {
    &&& new_records == old_records.push(c)
    &&& forall|x: Seq<char>| #[trigger]
        lookup(new_records, x) == if x == c.id {
            Some(c)
        } else {
            lookup(old_records, x)
        }
    &&& forall|o: Seq<char>| #[trigger]
        owner_ids(new_index, o) == if o == c.owner {
            owner_ids(old_index, o).push(c.id)
        } else {
            owner_ids(old_index, o)
        }
}

/// The new store is the old one without the record under `id`, which
/// belonged to `owner`, and without that id in the owner's set.
pub open spec fn erased(
    old_records: Seq<CredentialView>,
    old_index: Seq<OwnerSetView>,
    new_records: Seq<CredentialView>,
    new_index: Seq<OwnerSetView>,
    id: Seq<char>,
    owner: Seq<char>,
) -> bool {
    &&& new_records.len() + 1 == old_records.len()
    &&& forall|x: Seq<char>| #[trigger]
        lookup(new_records, x) == if x == id {
            None
        } else {
            lookup(old_records, x)
        }
    &&& forall|o: Seq<char>| #[trigger]
        owner_ids(new_index, o) == if o == owner {
            remove_id(owner_ids(old_index, o), id)
        } else {
            owner_ids(old_index, o)
        }
}

/// Store a credential in both the credentials map and the owner's set,
/// creating the set where the owner has none.
pub fn store_credential(
    credentials: &mut Vec<Credential>,
    credentials_by_owner: &mut Vec<OwnerCredentials>,
    credential: Credential,
)
    requires
        store_wf(old(credentials)@, old(credentials_by_owner)@),
        lookup(record_views(old(credentials)@), credential.id@) is None,
    ensures
        store_wf(final(credentials)@, final(credentials_by_owner)@),
        inserted(
            record_views(old(credentials)@),
            set_views(old(credentials_by_owner)@),
            record_views(final(credentials)@),
            set_views(final(credentials_by_owner)@),
            credential@,
        ),
{
    let ghost p = record_views(credentials@);
    let ghost ix = set_views(credentials_by_owner@);
    let ghost c = credential@;
    let id = credential.id.clone();
    let owner = credential.owner.clone();
    credentials.push(credential);
    let ghost q = record_views(credentials@);
    proof {
        assert(q =~= p.push(c));
        assert(q.drop_last() =~= p);
        lemma_lookup_some(p, c.id);
    }
    match find_owner(credentials_by_owner, &owner) {
        None => {
            let mut ids: Vec<String> = Vec::new();
            ids.push(id);
            let set = OwnerCredentials { owner, ids };
            proof {
                assert(set@.ids =~= seq![c.id]);
                lemma_owner_ids_absent(ix, c.owner);
                assert(seq![c.id] =~= Seq::<Seq<char>>::empty().push(c.id));
            }
            credentials_by_owner.push(set);
            proof {
                let jx = set_views(credentials_by_owner@);
                assert(jx =~= ix.push(set@));
                assert(jx.drop_last() =~= ix);
            }
        },
        Some(s) => {
            let mut set = credentials_by_owner.remove(s);
            let ghost before = set@;
            set.ids.push(id);
            proof {
                assert(before == ix[s as int]);
                assert(set@.ids =~= before.ids.push(c.id));
                lemma_owner_ids_at(ix, s as int);
                assert forall|o: Seq<char>|
                    owner_ids(ix.update(s as int, set@), o) == if o == c.owner {
                        owner_ids(ix, o).push(c.id)
                    } else {
                        owner_ids(ix, o)
                    } by {
                    lemma_owner_ids_update(ix, s as int, set@, o);
                }
            }
            credentials_by_owner.insert(s, set);
            proof {
                let jx = set_views(credentials_by_owner@);
                assert(jx =~= ix.update(s as int, set@));
            }
        },
    }
    proof {
        let jx = set_views(credentials_by_owner@);
        lemma_inserted_consistent(p, ix, q, jx, c);
    }
}

/// Adding a record under a fresh id keeps the store consistent.
pub proof fn lemma_inserted_consistent(
    p: Seq<CredentialView>,
    ix: Seq<OwnerSetView>,
    q: Seq<CredentialView>,
    jx: Seq<OwnerSetView>,
    c: CredentialView,
)
    requires
        ids_distinct(p),
        index_sound(p, ix),
        index_complete(p, ix),
        sets_distinct(ix),
        lookup(p, c.id) is None,
        inserted(p, ix, q, jx, c),
    ensures
        ids_distinct(q),
        index_sound(q, jx),
        index_complete(q, jx),
        sets_distinct(jx),
{
    lemma_lookup_some(p, c.id);
    assert forall|owner: Seq<char>, k: int| 0 <= k < owner_ids(jx, owner).len() implies {
        let r = lookup(q, #[trigger] owner_ids(jx, owner)[k]);
        r is Some && r->0.owner == owner
    } by {
        let x = owner_ids(jx, owner)[k];
        if k < owner_ids(ix, owner).len() {
            assert(x == owner_ids(ix, owner)[k]);
            assert(lookup(p, x) is Some);
        }
    }
    assert forall|id: Seq<char>| (#[trigger] lookup(q, id)) is Some implies owner_ids(
        jx,
        lookup(q, id)->0.owner,
    ).contains(id) by {
        if id == c.id {
            let ids = owner_ids(jx, c.owner);
            assert(ids[ids.len() - 1] == c.id);
        } else {
            let r = lookup(p, id)->0;
            let ids = owner_ids(ix, r.owner);
            let k = choose|k: int| 0 <= k < ids.len() && ids[k] == id;
            assert(owner_ids(jx, r.owner)[k] == id);
        }
    }
    assert forall|owner: Seq<char>| (#[trigger] owner_ids(jx, owner)).no_duplicates() by {
        let ids = owner_ids(ix, owner);
        assert(ids.no_duplicates());
        if owner == c.owner {
            assert forall|k: int| 0 <= k < ids.len() implies ids[k] != c.id by {
                assert(lookup(p, owner_ids(ix, owner)[k]) is Some);
            }
        }
    }
}

/// Taking a record and its listing out keeps the store consistent.
pub proof fn lemma_erased_consistent(
    p: Seq<CredentialView>,
    ix: Seq<OwnerSetView>,
    q: Seq<CredentialView>,
    jx: Seq<OwnerSetView>,
    id: Seq<char>,
    owner: Seq<char>,
)
    requires
        index_sound(p, ix),
        index_complete(p, ix),
        sets_distinct(ix),
        lookup(p, id) is Some,
        lookup(p, id)->0.owner == owner,
        erased(p, ix, q, jx, id, owner),
    ensures
        index_sound(q, jx),
        index_complete(q, jx),
        sets_distinct(jx),
{
    let ids = owner_ids(ix, owner);
    assert(ids.contains(id));
    assert(ids.no_duplicates());
    let k = ids.index_of(id);
    let ids2 = ids.remove(k);
    assert(owner_ids(jx, owner) == ids2);
    assert forall|o: Seq<char>, j: int| 0 <= j < owner_ids(jx, o).len() implies {
        let r = lookup(q, #[trigger] owner_ids(jx, o)[j]);
        r is Some && r->0.owner == o
    } by {
        let x = owner_ids(jx, o)[j];
        if o == owner {
            let j2 = if j < k { j } else { j + 1 };
            assert(x == ids[j2]);
            assert(lookup(p, owner_ids(ix, o)[j2]) is Some);
            assert(x != id);
        } else {
            assert(x == owner_ids(ix, o)[j]);
            assert(lookup(p, owner_ids(ix, o)[j]) is Some);
            assert(x != id);
        }
    }
    assert forall|x: Seq<char>| (#[trigger] lookup(q, x)) is Some implies owner_ids(
        jx,
        lookup(q, x)->0.owner,
    ).contains(x) by {
        let r = lookup(p, x)->0;
        assert(lookup(p, x) is Some);
        let l = owner_ids(ix, r.owner);
        let j = choose|j: int| 0 <= j < l.len() && l[j] == x;
        if r.owner == owner {
            assert(j != k);
            let j2 = if j < k { j } else { j - 1 };
            assert(ids2[j2] == x);
        } else {
            assert(owner_ids(jx, r.owner)[j] == x);
        }
    }
    assert forall|o: Seq<char>| (#[trigger] owner_ids(jx, o)).no_duplicates() by {
        assert(owner_ids(ix, o).no_duplicates());
        if o == owner {
            assert forall|a: int, b: int| 0 <= a < ids2.len() && 0 <= b < ids2.len() && a
                != b implies ids2[a] != ids2[b] by {
                let a2 = if a < k { a } else { a + 1 };
                let b2 = if b < k { b } else { b + 1 };
                assert(ids2[a] == ids[a2] && ids2[b] == ids[b2]);
            }
        }
    }
}

/// Erase the record at position `i` and its listing in the owner's set.
pub fn erase_credential_at(
    credentials: &mut Vec<Credential>,
    credentials_by_owner: &mut Vec<OwnerCredentials>,
    i: usize,
)
    requires
        store_wf(old(credentials)@, old(credentials_by_owner)@),
        i < old(credentials).len(),
    ensures
        store_wf(final(credentials)@, final(credentials_by_owner)@),
        erased(
            record_views(old(credentials)@),
            set_views(old(credentials_by_owner)@),
            record_views(final(credentials)@),
            set_views(final(credentials_by_owner)@),
            old(credentials)[i as int].id@,
            old(credentials)[i as int].owner@,
        ),
{
    let ghost p = record_views(credentials@);
    let ghost ix = set_views(credentials_by_owner@);
    let cred = credentials.remove(i);
    let ghost id = cred.id@;
    let ghost owner = cred.owner@;
    let ghost q = record_views(credentials@);
    proof {
        assert(p[i as int] == cred@);
        assert(q =~= p.remove(i as int));
        lemma_lookup_at(p, i as int);
        assert forall|x: Seq<char>| #[trigger]
            lookup(q, x) == if x == id {
                None
            } else {
                lookup(p, x)
            } by {
            lemma_lookup_remove(p, i as int, x);
        }
        lemma_lookup_remove(p, i as int, id);
        assert(owner_ids(ix, owner).contains(id));
    }
    match find_owner(credentials_by_owner, &cred.owner) {
        None => {
            proof {
                lemma_owner_ids_absent(ix, owner);
            }
        },
        Some(s) => {
            let mut set = credentials_by_owner.remove(s);
            proof {
                assert(set@ == ix[s as int]);
                lemma_owner_ids_at(ix, s as int);
            }
            let ghost ids = set@.ids;
            match find_string(&set.ids, &cred.id) {
                None => {
                    proof {
                        let k = choose|k: int| 0 <= k < ids.len() && ids[k] == id;
                        assert(set.ids[k]@ == ids[k]);
                    }
                },
                Some(k) => {
                    set.ids.remove(k);
                    proof {
                        assert(ids[k as int] == id);
                        assert(ids.no_duplicates());
                        assert(ids.index_of(id) == k as int);
                        assert(set@.ids =~= ids.remove(k as int));
                    }
                },
            }
            proof {
                assert forall|o: Seq<char>|
                    owner_ids(ix.update(s as int, set@), o) == if o == owner {
                        remove_id(owner_ids(ix, o), id)
                    } else {
                        owner_ids(ix, o)
                    } by {
                    lemma_owner_ids_update(ix, s as int, set@, o);
                }
                lemma_owner_ids_update(ix, s as int, set@, owner);
            }
            credentials_by_owner.insert(s, set);
            proof {
                let jx = set_views(credentials_by_owner@);
                assert(jx =~= ix.update(s as int, set@));
            }
        },
    }
    proof {
        let jx = set_views(credentials_by_owner@);
        lemma_erased_consistent(p, ix, q, jx, id, owner);
    }
}

/// Remove a credential from storage. Returns true if removed: the record
/// exists and `caller` is its owner. Otherwise nothing changes.
pub fn remove_credential(
    credentials: &mut Vec<Credential>,
    credentials_by_owner: &mut Vec<OwnerCredentials>,
    credential_id: &String,
    caller: &String,
) -> (removed: bool)
    requires
        store_wf(old(credentials)@, old(credentials_by_owner)@),
    ensures
        store_wf(final(credentials)@, final(credentials_by_owner)@),
        removed == (lookup(record_views(old(credentials)@), credential_id@) is Some && lookup(
            record_views(old(credentials)@),
            credential_id@,
        )->0.owner == caller@),
        removed ==> erased(
            record_views(old(credentials)@),
            set_views(old(credentials_by_owner)@),
            record_views(final(credentials)@),
            set_views(final(credentials_by_owner)@),
            credential_id@,
            caller@,
        ),
        !removed ==> record_views(final(credentials)@) == record_views(old(credentials)@)
            && set_views(final(credentials_by_owner)@) == set_views(old(credentials_by_owner)@),
{
    let ghost p = record_views(credentials@);
    proof {
        lemma_lookup_some(p, credential_id@);
    }
    match find_credential(credentials, credential_id) {
        None => {
            proof {
                if lookup(p, credential_id@) is Some {
                    let r = lookup(p, credential_id@)->0;
                    let a = choose|a: int| 0 <= a < p.len() && p[a] == r;
                    assert(credentials[a].id@ == credential_id@);
                }
            }
            false
        },
        Some(i) => {
            proof {
                assert(p[i as int] == credentials[i as int]@);
                lemma_lookup_at(p, i as int);
            }
            if credentials[i].owner != *caller {
                return false;
            }
            erase_credential_at(credentials, credentials_by_owner, i);
            true
        },
    }
}

/// Check if a credential exists and is not expired at time `now`.
pub fn is_credential_valid(credentials: &Vec<Credential>, credential_id: &String, now: u64) -> (r:
    Option<bool>)
    requires
        ids_distinct(record_views(credentials@)),
    ensures
        r == match lookup(record_views(credentials@), credential_id@) {
            Some(c) => Some(c.expires_at > now),
            None => None,
        },
{
    let ghost p = record_views(credentials@);
    proof {
        lemma_lookup_some(p, credential_id@);
    }
    match find_credential(credentials, credential_id) {
        None => {
            proof {
                if lookup(p, credential_id@) is Some {
                    let r = lookup(p, credential_id@)->0;
                    let a = choose|a: int| 0 <= a < p.len() && p[a] == r;
                    assert(credentials[a].id@ == credential_id@);
                }
            }
            None
        },
        Some(i) => {
            proof {
                assert(p[i as int] == credentials[i as int]@);
                lemma_lookup_at(p, i as int);
            }
            Some(credentials[i].expires_at > now)
        },
    }
}


/// Whether the record under `id` exists and passes the expiry filter.
pub open spec fn passes_filter(
    records: Seq<CredentialView>,
    id: Seq<char>,
    include_expired: bool,
    now: u64,
) -> bool {
    lookup(records, id) is Some && (include_expired || lookup(records, id)->0.expires_at > now)
}

/// The records of the first `k` ids that pass the filter, in the order of the ids.
pub open spec fn matching(
    records: Seq<CredentialView>,
    ids: Seq<Seq<char>>,
    include_expired: bool,
    now: u64,
    k: nat,
) -> Seq<CredentialView>
    decreases k,
{
    if k == 0 {
        Seq::empty()
    } else {
        let before = matching(records, ids, include_expired, now, (k - 1) as nat);
        if passes_filter(records, ids[k - 1], include_expired, now) {
            before.push(lookup(records, ids[k - 1])->0)
        } else {
            before
        }
    }
}

/// The part of `all` whose ranks lie in `[offset, offset + limit)`.
pub open spec fn page_of(all: Seq<CredentialView>, offset: nat, limit: nat) -> Seq<CredentialView> {
    let start = if offset <= all.len() {
        offset
    } else {
        all.len()
    };
    let end = if offset + limit <= all.len() {
        offset + limit
    } else {
        all.len()
    };
    all.subrange(start as int, end as int)
}

/// `n` as a `u32`, or the largest `u32` where `n` is larger.
pub open spec fn clamp_u32(n: nat) -> u32 {
    if n > u32::MAX {
        u32::MAX
    } else {
        n as u32
    }
}

/// Get credentials owned by an account with pagination.
///
/// Walks the owner's ids, oldest first, and returns the page of the
/// records that pass the expiry filter at time `now`, with the number of
/// all that pass (the largest `u32` where they are more).
pub fn get_credentials_by_owner(
    credentials: &Vec<Credential>,
    credentials_by_owner: &Vec<OwnerCredentials>,
    owner: &String,
    include_expired: bool,
    offset: u32,
    limit: u32,
    now: u64,
) -> (r: (Vec<Credential>, u32))
    requires
        store_wf(credentials@, credentials_by_owner@),
    ensures
        ({
            let ids = owner_ids(set_views(credentials_by_owner@), owner@);
            let all = matching(record_views(credentials@), ids, include_expired, now, ids.len());
            &&& r.1 == clamp_u32(all.len())
            &&& record_views(r.0@) == page_of(all, offset as nat, limit as nat)
        }),
{
    let ghost p = record_views(credentials@);
    let ghost ix = set_views(credentials_by_owner@);
    let mut result: Vec<Credential> = Vec::new();
    let s = match find_owner(credentials_by_owner, owner) {
        None => {
            proof {
                lemma_owner_ids_absent(ix, owner@);
                assert(record_views(result@) =~= Seq::<CredentialView>::empty());
            }
            return (result, 0);
        },
        Some(s) => s,
    };
    let owner_set = &credentials_by_owner[s];
    let ghost ids = owner_set@.ids;
    proof {
        assert(ix[s as int] == owner_set@);
        lemma_owner_ids_at(ix, s as int);
    }
    let mut total: usize = 0;
    let mut k: usize = 0;
    assert(record_views(result@) =~= page_of(
        matching(p, ids, include_expired, now, 0),
        offset as nat,
        limit as nat,
    ));
    while k < owner_set.ids.len()
        invariant
            0 <= k <= owner_set.ids.len(),
            ids == owner_set@.ids,
            ids.len() == owner_set.ids.len(),
            p == record_views(credentials@),
            ids_distinct(p),
            total == matching(p, ids, include_expired, now, k as nat).len(),
            total <= k,
            record_views(result@) == page_of(
                matching(p, ids, include_expired, now, k as nat),
                offset as nat,
                limit as nat,
            ),
        decreases owner_set.ids.len() - k,
    {
        let ghost before = matching(p, ids, include_expired, now, k as nat);
        proof {
            assert(ids[k as int] == owner_set.ids[k as int]@);
            lemma_lookup_some(p, ids[k as int]);
        }
        match find_credential(credentials, &owner_set.ids[k]) {
            None => {
                proof {
                    if lookup(p, ids[k as int]) is Some {
                        let r = lookup(p, ids[k as int])->0;
                        let a = choose|a: int| 0 <= a < p.len() && p[a] == r;
                        assert(credentials[a].id@ == ids[k as int]);
                    }
                }
            },
            Some(i) => {
                proof {
                    assert(p[i as int] == credentials[i as int]@);
                    lemma_lookup_at(p, i as int);
                }
                let cred = &credentials[i];
                if include_expired || cred.expires_at > now {
                    if total >= offset as usize && result.len() < limit as usize {
                        let ghost page = record_views(result@);
                        result.push(cred.clone());
                        proof {
                            assert(record_views(result@) =~= page.push(cred@));
                            assert(page.push(cred@) =~= page_of(
                                before.push(cred@),
                                offset as nat,
                                limit as nat,
                            ));
                        }
                    } else {
                        proof {
                            assert(page_of(before, offset as nat, limit as nat) =~= page_of(
                                before.push(cred@),
                                offset as nat,
                                limit as nat,
                            ));
                        }
                    }
                    total += 1;
                }
            },
        }
        k += 1;
    }
    let count: u32 = if total > u32::MAX as usize {
        u32::MAX
    } else {
        total as u32
    };
    (result, count)
}

} // verus!
