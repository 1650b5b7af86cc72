//! Claims on resources that are prepared before pods use them.
use crate::error::KubeletError;
use crate::strmap::StrMap;
use crate::text::{cat3};
use vstd::prelude::*;

verus! {

/// A claim on a resource.
#[derive(Debug)]
pub struct ResourceClaim {
    pub namespace: String,
    pub name: String,
    pub class_name: String,
    pub allocated: bool,
    pub prepared: bool,
}

/// Keeps which claims are prepared.
#[derive(Debug)]
pub struct DraManager {
    pub plugin_root: String,
    pub prepared_claims: StrMap<()>,
    pub claims: StrMap<ResourceClaim>,
}

/// Under which name a claim is kept.
pub open spec fn claim_key(namespace: Seq<char>, name: Seq<char>) -> Seq<char> {
    namespace + "/"@ + name
}

/// `claims` with the claim under `key` marked as prepared or not.
pub open spec fn with_mark(
    claims: Map<Seq<char>, ResourceClaim>,
    key: Seq<char>,
    prepared: bool,
) -> Map<Seq<char>, ResourceClaim> {
    if claims.contains_key(key) {
        claims.insert(key, ResourceClaim { prepared, ..claims[key] })
    } else {
        claims
    }
}

fn key_of(namespace: &str, name: &str) -> (r: String)
    ensures
        r@ == claim_key(namespace@, name@),
{
    cat3(namespace, "/", name)
}

impl DraManager {
    pub fn new(plugin_root: &str) -> (r: Self)
        ensures
            r.plugin_root@ == plugin_root@,
            r.prepared_claims@ == Map::<Seq<char>, ()>::empty(),
            r.claims@ == Map::<Seq<char>, ResourceClaim>::empty(),
    {
        DraManager {
            plugin_root: plugin_root.to_owned(),
            prepared_claims: StrMap::new(),
            claims: StrMap::new(),
        }
    }

    /// Keeps a claim, in place of the one of the same name.
    pub fn register_claim(&mut self, claim: ResourceClaim)
        ensures
            final(self).claims@ == old(self).claims@.insert(
                claim_key(claim.namespace@, claim.name@),
                claim,
            ),
            final(self).prepared_claims == old(self).prepared_claims,
            final(self).plugin_root == old(self).plugin_root,
    {
        let key = key_of(claim.namespace.as_str(), claim.name.as_str());
        self.claims.insert(key, claim);
    }

    /// Prepares a claim, which has to be known and allocated.
    pub fn prepare_resources(&mut self, namespace: &str, claim_name: &str) -> (r: Result<
        (),
        KubeletError,
    >)
        ensures
            final(self).plugin_root == old(self).plugin_root,
            ({
                let key = claim_key(namespace@, claim_name@);
                if !old(self).claims@.contains_key(key) {
                    r matches Err(KubeletError::Runtime(m)) && m@ == "resource claim '"@ + key
                        + "' not found"@ && final(self).claims@ == old(self).claims@ && final(
                        self).prepared_claims@ == old(self).prepared_claims@
                } else if !old(self).claims@[key].allocated {
                    r matches Err(KubeletError::Runtime(m)) && m@ == "resource claim '"@ + key
                        + "' is not allocated"@ && final(self).claims@ == old(self).claims@
                        && final(self).prepared_claims@ == old(self).prepared_claims@
                } else {
                    r is Ok && final(self).prepared_claims@ == old(self).prepared_claims@.insert(
                        key,
                        (),
                    ) && final(self).claims@ == with_mark(old(self).claims@, key, true)
                }
            }),
    {
        let key = key_of(namespace, claim_name);
        let ghost before = self.claims@;
        let allocated = match self.claims.get(key.as_str()) {
            Some(c) => c.allocated,
            None => {
                return Err(
                    KubeletError::Runtime(cat3("resource claim '", key.as_str(), "' not found")),
                );
            },
        };
        if !allocated {
            return Err(
                KubeletError::Runtime(cat3("resource claim '", key.as_str(), "' is not allocated")),
            );
        }
        if let Some(c) = self.claims.remove(key.as_str()) {
            let next = ResourceClaim {
                namespace: c.namespace,
                name: c.name,
                class_name: c.class_name,
                allocated: c.allocated,
                prepared: true,
            };
            self.claims.insert(key.clone(), next);
            assert(self.claims@ =~= before.insert(key@, next));
        }
        self.prepared_claims.insert(key, ());
        Ok(())
    }

    /// Takes the preparation of a claim back.
    pub fn unprepare_resources(&mut self, namespace: &str, claim_name: &str)
        ensures
            final(self).plugin_root == old(self).plugin_root,
            final(self).prepared_claims@ == old(self).prepared_claims@.remove(
                claim_key(namespace@, claim_name@),
            ),
            final(self).claims@ == with_mark(
                old(self).claims@,
                claim_key(namespace@, claim_name@),
                false,
            ),
    {
        let key = key_of(namespace, claim_name);
        let ghost before = self.claims@;
        if let Some(c) = self.claims.remove(key.as_str()) {
            let next = ResourceClaim {
                namespace: c.namespace,
                name: c.name,
                class_name: c.class_name,
                allocated: c.allocated,
                prepared: false,
            };
            self.claims.insert(key.clone(), next);
            assert(self.claims@ =~= before.insert(key@, next));
        } else {
            assert(self.claims@ =~= before);
        }
        let _ = self.prepared_claims.remove(key.as_str());
    }

    pub fn is_prepared(&self, namespace: &str, claim_name: &str) -> (r: bool)
        ensures
            r == self.prepared_claims@.contains_key(claim_key(namespace@, claim_name@)),
    {
        let key = key_of(namespace, claim_name);
        self.prepared_claims.contains_key(key.as_str())
    }

    pub fn plugin_root(&self) -> (r: &String)
        ensures
            *r == self.plugin_root,
    {
        &self.plugin_root
    }
}

/// Taking the preparation of a claim back right after it was prepared restores
/// the claims and which of them are prepared, where it was not prepared before.
pub proof fn law_unprepare_undoes_prepare(
    claims: Map<Seq<char>, ResourceClaim>,
    prepared: Map<Seq<char>, ()>,
    key: Seq<char>,
)
    requires
        claims.contains_key(key),
        !claims[key].prepared,
        !prepared.contains_key(key),
    ensures
        with_mark(with_mark(claims, key, true), key, false) == claims,
        prepared.insert(key, ()).remove(key) == prepared,
{
    assert(with_mark(with_mark(claims, key, true), key, false) =~= claims);
    assert(prepared.insert(key, ()).remove(key) =~= prepared);
}

/// Preparing a claim that is prepared already changes nothing.
pub proof fn law_prepare_is_idempotent(
    claims: Map<Seq<char>, ResourceClaim>,
    prepared: Map<Seq<char>, ()>,
    key: Seq<char>,
)
    ensures
        with_mark(with_mark(claims, key, true), key, true) == with_mark(claims, key, true),
        prepared.insert(key, ()).insert(key, ()) == prepared.insert(key, ()),
{
    assert(with_mark(with_mark(claims, key, true), key, true) =~= with_mark(claims, key, true));
    assert(prepared.insert(key, ()).insert(key, ()) =~= prepared.insert(key, ()));
}

/// A claim goes by its namespace and its name: within a namespace two claims
/// are the same only where their names are.
pub proof fn law_claims_are_told_apart(namespace: Seq<char>, a: Seq<char>, b: Seq<char>)
    ensures
        claim_key(namespace, a) == namespace + "/"@ + a,
        claim_key(namespace, a) == claim_key(namespace, b) <==> a == b,
{
    reveal_strlit("/");
    assert(claim_key(namespace, a).skip(namespace.len() as int + 1) =~= a);
    assert(claim_key(namespace, b).skip(namespace.len() as int + 1) =~= b);
}

/// Preparing a claim marks that claim and changes nothing else, of it or of the
/// others.
pub proof fn law_marks_touch_one_claim(
    claims: Map<Seq<char>, ResourceClaim>,
    key: Seq<char>,
    prepared: bool,
    other: Seq<char>,
)
    ensures
        claims.contains_key(key) ==> {
            &&& with_mark(claims, key, prepared).contains_key(key)
            &&& with_mark(claims, key, prepared)[key].prepared == prepared
            &&& with_mark(claims, key, prepared)[key].allocated == claims[key].allocated
            &&& with_mark(claims, key, prepared)[key].name == claims[key].name
            &&& with_mark(claims, key, prepared)[key].namespace == claims[key].namespace
            &&& with_mark(claims, key, prepared)[key].class_name == claims[key].class_name
        },
        with_mark(claims, key, prepared).contains_key(other) <==> claims.contains_key(other),
        other != key && claims.contains_key(other) ==> with_mark(claims, key, prepared)[other]
            == claims[other],
{
}

} // verus!
