//! The authenticated session and the per-call decryption context derived
//! from it.

use vstd::prelude::*;

use crate::error::Error;

verus! {

/// A symmetric key granting access to a subtree shared by another user.
#[derive(Debug)]
pub struct ShareKey {
    pub handle: String,
    pub key: Vec<u8>,
}

/// The secrets and identifiers of an authenticated user.
#[derive(Debug)]
pub struct UserSession {
    /// The server-issued session id.
    pub session_id: String,
    /// The key protecting the user's own node keys.
    pub master_key: [u8; 16],
    /// The session encryption key.
    pub sek: [u8; 16],
    /// The user's encoded private key (used for shares).
    pub private_key: Vec<u8>,
    /// The user's handle.
    pub user_handle: String,
    /// Cached share keys for nodes of inbound shares.
    pub share_keys: Option<Vec<ShareKey>>,
}

/// The keys needed to decrypt one subtree of nodes.
#[derive(Debug)]
pub struct DecryptionContext {
    pub user_handle: String,
    pub user_master_key: [u8; 16],
    pub user_private_key: Vec<u8>,
    pub node_key: Option<String>,
    /// Share keys in order of precedence: a later entry for a handle hides
    /// an earlier one.
    pub share_keys: Vec<ShareKey>,
}

/// The mapping a list of share keys stands for; a later entry wins.
pub open spec fn share_map(s: Seq<ShareKey>) -> Map<Seq<char>, Seq<u8>>
    decreases s.len(),
{
    if s.len() == 0 {
        Map::empty()
    } else {
        share_map(s.drop_last()).insert(s.last().handle@, s.last().key@)
    }
}

/// The text that the UTF-8 bytes `b` encode, if they are valid UTF-8.
pub uninterp spec fn utf8_text_of(b: Seq<u8>) -> Option<Seq<char>>;

/// Relies on `std::str::from_utf8`: the text of valid UTF-8, else an error.
/// The bytes stay with the caller, who wipes them.
#[verifier::external_body]
fn decode_utf8(b: &Vec<u8>) -> (r: Option<String>)
    ensures
        match utf8_text_of(b@) {
            Some(t) => r is Some && r->Some_0@ == t,
            None => r is None,
        },
{
    std::str::from_utf8(b.as_slice()).ok().map(|t| t.to_owned())
}

/// Relies on zeroize's impl for `Vec<u8>`: zeroes the bytes, then clears.
#[verifier::external_body]
fn wipe_bytes(v: &mut Vec<u8>)
    ensures
        final(v)@.len() == 0,
    opens_invariants none
    no_unwind
{
    zeroize::Zeroize::zeroize(v)
}

/// Relies on zeroize's impl for `String`: zeroes the bytes, then clears.
#[verifier::external_body]
fn wipe_text(s: &mut String)
    ensures
        final(s)@.len() == 0,
    opens_invariants none
    no_unwind
{
    zeroize::Zeroize::zeroize(s)
}

/// Relies on zeroize's impl for byte arrays: sets each byte to zero.
#[verifier::external_body]
fn wipe_key(k: &mut [u8; 16])
    ensures
        forall|i: int| 0 <= i < 16 ==> #[trigger] final(k)@[i] == 0u8,
    opens_invariants none
    no_unwind
{
    zeroize::Zeroize::zeroize(k)
}

fn copy_bytes(v: &Vec<u8>) -> (r: Vec<u8>)
    ensures
        r@ == v@,
{
    let mut r: Vec<u8> = Vec::new();
    let mut i: usize = 0;
    while i < v.len()
        invariant
            i <= v@.len(),
            r@ == v@.subrange(0, i as int),
        decreases v@.len() - i,
    {
        r.push(v[i]);
        i = i + 1;
    }
    assert(r@ =~= v@);
    r
}

impl ShareKey {
    pub fn new(handle: String, key: Vec<u8>) -> (r: ShareKey)
        ensures
            r.handle == handle,
            r.key == key,
    {
        ShareKey { handle, key }
    }

    pub fn handle(&self) -> (r: &String)
        ensures
            r == self.handle,
    {
        &self.handle
    }

    pub fn key(&self) -> (r: &Vec<u8>)
        ensures
            r == self.key,
    {
        &self.key
    }

    /// A copy holding the same handle and key.
    pub fn duplicate(&self) -> (r: ShareKey)
        ensures
            r.handle@ == self.handle@,
            r.key@ == self.key@,
    {
        ShareKey { handle: self.handle.clone(), key: copy_bytes(&self.key) }
    }

    /// Overwrites the handle and key, leaving both empty.
    pub fn zeroize(&mut self)
        ensures
            final(self).handle@.len() == 0,
            final(self).key@.len() == 0,
        opens_invariants none
        no_unwind
    {
        wipe_text(&mut self.handle);
        wipe_bytes(&mut self.key);
    }
}

fn copy_share_keys(v: &Vec<ShareKey>) -> (r: Vec<ShareKey>)
    ensures
        r@.len() == v@.len(),
        forall|i: int| 0 <= i < v@.len() ==> (#[trigger] r@[i]).handle@ == v@[i].handle@ && r@[i].key@ == v@[i].key@,
{
    let mut r: Vec<ShareKey> = Vec::new();
    let mut i: usize = 0;
    while i < v.len()
        invariant
            i <= v@.len(),
            r@.len() == i,
            forall|j: int| 0 <= j < i ==> (#[trigger] r@[j]).handle@ == v@[j].handle@ && r@[j].key@ == v@[j].key@,
        decreases v@.len() - i,
    {
        r.push(v[i].duplicate());
        i = i + 1;
    }
    r
}

/// The share keys a session has cached, as a mapping.
pub open spec fn cached_map(s: UserSession) -> Map<Seq<char>, Seq<u8>> {
    match s.share_keys {
        Some(v) => share_map(v@),
        None => Map::empty(),
    }
}

/// The share-key mapping of a context derived from `s`: the cached keys,
/// overridden by those the user attributes gave, if any were supplied.
pub open spec fn derived_share_map(s: UserSession, extracted: Option<Seq<ShareKey>>) -> Map<Seq<char>, Seq<u8>> {
    match extracted {
        Some(e) => cached_map(s).union_prefer_right(share_map(e)),
        None => cached_map(s),
    }
}

/// Two lists whose entries agree on handle and key text stand for one mapping.
proof fn lemma_share_map_same_views(a: Seq<ShareKey>, b: Seq<ShareKey>)
    requires
        a.len() == b.len(),
        forall|i: int| 0 <= i < a.len() ==> (#[trigger] a[i]).handle@ == b[i].handle@ && a[i].key@ == b[i].key@,
    ensures
        share_map(a) == share_map(b),
    decreases a.len(),
{
    if a.len() > 0 {
        let (a1, b1) = (a.drop_last(), b.drop_last());
        assert forall|i: int| 0 <= i < a1.len() implies (#[trigger] a1[i]).handle@ == b1[i].handle@ && a1[i].key@ == b1[i].key@ by {
            assert(a1[i] == a[i] && b1[i] == b[i]);
        }
        lemma_share_map_same_views(a1, b1);
        assert(a.last() == a[a.len() - 1]);
    }
}

/// Merging share keys: the mapping of the keys of `a` followed by those of `b`
/// holds every key of `b`, and those keys of `a` whose handle `b` lacks.
pub proof fn lemma_share_map_concat(a: Seq<ShareKey>, b: Seq<ShareKey>)
    ensures
        share_map(a + b) == share_map(a).union_prefer_right(share_map(b)),
    decreases b.len(),
{
    if b.len() == 0 {
        assert(a + b =~= a);
        assert(share_map(a).union_prefer_right(share_map(b)) =~= share_map(a));
    } else {
        let ab = a + b;
        assert(ab.drop_last() =~= a + b.drop_last());
        assert(ab.last() == b.last());
        lemma_share_map_concat(a, b.drop_last());
        assert(share_map(ab) =~= share_map(a).union_prefer_right(share_map(b)));
    }
}

impl UserSession {
    pub fn new(
        session_id: String,
        master_key: [u8; 16],
        sek: [u8; 16],
        private_key: Vec<u8>,
        user_handle: String,
        share_keys: Option<Vec<ShareKey>>,
    ) -> (r: UserSession)
        ensures
            r == (UserSession { session_id, master_key, sek, private_key, user_handle, share_keys }),
    {
        UserSession { session_id, master_key, sek, private_key, user_handle, share_keys }
    }

    pub fn session_id(&self) -> (r: &String)
        ensures
            r == self.session_id,
    {
        &self.session_id
    }

    /// Derives the keys for decrypting one subtree of nodes. `extracted` holds
    /// the share keys taken from server-supplied user attributes, if any were
    /// supplied; `node_key` holds the UTF-8 bytes of one node's key.
    pub fn decryption_context(&self, extracted: Option<&Vec<ShareKey>>, node_key: Option<Vec<u8>>) -> (r: Result<DecryptionContext, Error>)
        ensures
            r is Err <==> (node_key is Some && utf8_text_of(node_key->Some_0@) is None),
            r is Err ==> r == Err::<DecryptionContext, Error>(Error::NodeKeyDecode),
            r matches Ok(c) ==> {
                &&& c.user_handle@ == self.user_handle@
                &&& c.user_master_key == self.master_key
                &&& c.user_private_key@ == self.private_key@
                &&& match node_key {
                    Some(k) => c.node_key is Some && utf8_text_of(k@) == Some(c.node_key->Some_0@),
                    None => c.node_key is None,
                }
                &&& share_map(c.share_keys@) == derived_share_map(*self, match extracted {
                    Some(e) => Some(e@),
                    None => None,
                })
            },
    {
        let node_key = match node_key {
            Some(k) => {
                let mut k = k;
                let text = decode_utf8(&k);
                wipe_bytes(&mut k);
                match text {
                    Some(t) => Some(t),
                    None => return Err(Error::NodeKeyDecode),
                }
            },
            None => None,
        };
        let mut share_keys: Vec<ShareKey> = match &self.share_keys {
            Some(c) => copy_share_keys(c),
            None => Vec::new(),
        };
        let ghost cached = share_keys@;
        proof {
            if self.share_keys is Some {
                lemma_share_map_same_views(cached, self.share_keys->Some_0@);
            } else {
                assert(cached =~= Seq::<ShareKey>::empty());
                assert(share_map(cached) =~= Map::<Seq<char>, Seq<u8>>::empty());
            }
        }
        if let Some(e) = extracted {
            let mut fresh = copy_share_keys(e);
            let ghost fresh0 = fresh@;
            share_keys.append(&mut fresh);
            proof {
                lemma_share_map_same_views(fresh0, e@);
                lemma_share_map_concat(cached, fresh0);
            }
        }
        Ok(DecryptionContext {
            user_handle: self.user_handle.clone(),
            user_master_key: self.master_key,
            user_private_key: copy_bytes(&self.private_key),
            node_key,
            share_keys,
        })
    }

    /// Overwrites every secret the session holds and drops the cached keys,
    /// each of which wipes itself as it goes.
    pub fn zeroize(&mut self)
        ensures
            final(self).session_id@.len() == 0,
            forall|i: int| 0 <= i < 16 ==> #[trigger] final(self).master_key@[i] == 0u8,
            forall|i: int| 0 <= i < 16 ==> #[trigger] final(self).sek@[i] == 0u8,
            final(self).private_key@.len() == 0,
            final(self).user_handle@.len() == 0,
            final(self).share_keys is None,
        opens_invariants none
        no_unwind
    {
        wipe_text(&mut self.session_id);
        wipe_key(&mut self.master_key);
        wipe_key(&mut self.sek);
        wipe_bytes(&mut self.private_key);
        wipe_text(&mut self.user_handle);
        self.share_keys = None;
    }
}

impl DecryptionContext {
    /// The key stored for `handle`: the last entry with that handle.
    pub fn share_key(&self, handle: &String) -> (r: Option<&Vec<u8>>)
        ensures
            r is Some <==> share_map(self.share_keys@).contains_key(handle@),
            r matches Some(k) ==> k@ == share_map(self.share_keys@)[handle@],
    {
        let mut i: usize = self.share_keys.len();
        assert(self.share_keys@.subrange(0, i as int) =~= self.share_keys@);
        while i > 0
            invariant
                i <= self.share_keys@.len(),
                share_map(self.share_keys@).contains_key(handle@) == share_map(self.share_keys@.subrange(0, i as int)).contains_key(handle@),
                share_map(self.share_keys@).contains_key(handle@) ==> share_map(self.share_keys@)[handle@] == share_map(self.share_keys@.subrange(0, i as int))[handle@],
            decreases i,
        {
            let ghost pre = self.share_keys@.subrange(0, i as int);
            assert(pre.drop_last() =~= self.share_keys@.subrange(0, i - 1));
            if self.share_keys[i - 1].handle == *handle {
                return Some(&self.share_keys[i - 1].key);
            }
            i = i - 1;
        }
        assert(self.share_keys@.subrange(0, 0) =~= Seq::<ShareKey>::empty());
        None
    }

    /// Overwrites every secret the context holds but its share keys, which
    /// wipe themselves when dropped.
    fn wipe_secrets(&mut self)
        ensures
            final(self).user_handle@.len() == 0,
            forall|i: int| 0 <= i < 16 ==> #[trigger] final(self).user_master_key@[i] == 0u8,
            final(self).user_private_key@.len() == 0,
            final(self).node_key is None,
            final(self).share_keys == old(self).share_keys,
        opens_invariants none
        no_unwind
    {
        wipe_text(&mut self.user_handle);
        wipe_key(&mut self.user_master_key);
        wipe_bytes(&mut self.user_private_key);
        if let Some(k) = &mut self.node_key {
            wipe_text(k);
        }
        self.node_key = None;
    }

    /// Overwrites every secret the context holds and drops its share keys,
    /// each of which wipes itself as it goes.
    pub fn zeroize(&mut self)
        ensures
            final(self).user_handle@.len() == 0,
            forall|i: int| 0 <= i < 16 ==> #[trigger] final(self).user_master_key@[i] == 0u8,
            final(self).user_private_key@.len() == 0,
            final(self).node_key is None,
            final(self).share_keys@.len() == 0,
    {
        self.wipe_secrets();
        self.share_keys.clear();
    }
}

impl Drop for ShareKey {
    /// Wipes the key when it is discarded.
    fn drop(&mut self)
        opens_invariants none
        no_unwind
    {
        self.zeroize();
    }
}

impl Drop for UserSession {
    /// Wipes the session's secrets when it is discarded.
    fn drop(&mut self)
        opens_invariants none
        no_unwind
    {
        self.zeroize();
    }
}

impl Drop for DecryptionContext {
    /// Wipes the context's secrets when it is discarded; its share keys wipe
    /// themselves as they are dropped after it.
    fn drop(&mut self)
        opens_invariants none
        no_unwind
    {
        self.wipe_secrets();
    }
}

} // verus!
