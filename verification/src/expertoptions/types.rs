//! The assets of the ExpertOption platform, keyed by symbol.

use vstd::hash_map::StringHashMap;
use vstd::prelude::*;

verus! {

/// The id the platform gives an asset that clients cannot trade.
pub const UNSUPPORTED_ASSET_ID: u32 = 20000;

/// An asset as the platform lists it.
#[derive(Debug)]
pub struct Asset {
    pub id: u32,
    pub symbol: Option<String>,
    pub name: String,
    pub is_active: bool,
}

/// Whether an asset with this id can be traded: a positive id other than
/// the one of unsupported assets.
pub open spec fn valid_asset_id(id: u32) -> bool {
    id > 0 && id != UNSUPPORTED_ASSET_ID
}

/// The symbol an asset is known by: its own symbol, else its name.
pub open spec fn symbol_of(a: Asset) -> Seq<char> {
    match a.symbol {
        Some(s) => s@,
        None => a.name@,
    }
}

impl Asset {
    /// Whether the asset can be traded.
    fn is_valid(&self) -> (r: bool)
        ensures
            r == valid_asset_id(self.id),
    {
        self.id > 0 && self.id != UNSUPPORTED_ASSET_ID
    }

    /// The symbol the asset is known by: its own symbol, else its name.
    pub fn get_symbol(&self) -> (r: String)
        ensures
            r@ == symbol_of(*self),
    {
        match &self.symbol {
            Some(s) => s.clone(),
            None => self.name.clone(),
        }
    }
}

/// The tradable assets of a list, by symbol; of two assets with one
/// symbol, the later one in the list is kept.
pub open spec fn assets_by_symbol(assets: Seq<Asset>) -> Map<Seq<char>, Asset>
    decreases assets.len(),
{
    if assets.len() == 0 {
        Map::empty()
    } else {
        let m = assets_by_symbol(assets.drop_last());
        let a = assets.last();
        if valid_asset_id(a.id) {
            m.insert(symbol_of(a), a)
        } else {
            m
        }
    }
}

/// The tradable assets, by symbol.
pub struct Assets(pub StringHashMap<Asset>);

impl Assets {
    /// Keeps the tradable assets of the list, by symbol; of two assets with
    /// one symbol, the later one in the list.
    pub fn new(assets: Vec<Asset>) -> (r: Self)
        ensures
            r.0@ == assets_by_symbol(assets@),
    {
        let ghost all = assets@;
        assert(all.len() == assets.len());
        let mut rest = assets;
        let mut map: StringHashMap<Asset> = StringHashMap::new();
        let mut i: usize = 0;
        while rest.len() > 0
            invariant
                all.len() <= usize::MAX,
                i + rest.len() == all.len(),
                rest@ == all.subrange(i as int, all.len() as int),
                map@ == assets_by_symbol(all.take(i as int)),
            decreases rest.len(),
        {
            let a = rest.remove(0);
            proof {
                assert(a == all[i as int]);
                assert(all.take(i + 1).drop_last() =~= all.take(i as int));
                assert(all.take(i + 1).last() == all[i as int]);
            }
            if a.is_valid() {
                let key = a.get_symbol();
                map.insert(key, a);
            }
            i = i + 1;
            proof {
                assert(rest@ =~= all.subrange(i as int, all.len() as int));
            }
        }
        proof {
            assert(all.take(i as int) =~= all);
        }
        Assets(map)
    }

    /// The id of the asset known by the symbol `asset`, if it is tradable.
    pub fn id(&self, asset: &str) -> (r: Option<u32>)
        ensures
            r == (if self.0@.contains_key(asset@) {
                Some(self.0@[asset@].id)
            } else {
                None::<u32>
            }),
    {
        match self.0.get(asset) {
            Some(a) => Some(a.id),
            None => None,
        }
    }
}


/// The key an asset is listed under: its symbol, else its name.
pub open spec fn listed_key(a: Asset) -> Seq<char> {
    if a.symbol is Some {
        a.symbol->0@
    } else {
        a.name@
    }
}

/// Whether an asset can be traded by its id: a positive id other than
/// 20000.
pub open spec fn tradable(a: Asset) -> bool {
    0 < a.id && a.id != 20000
}

/// An asset with a tradable id is found under its symbol (else its name),
/// active or not, unless a later tradable asset of the list takes that
/// symbol; every asset found is a tradable one of the list, under its own
/// symbol; and a symbol that no tradable asset has is not found.
pub proof fn lemma_assets_by_symbol_index(assets: Seq<Asset>)
    ensures
        forall|i: int|
            #![trigger assets[i]]
            0 <= i < assets.len() && tradable(assets[i]) && (forall|j: int|
                #![trigger assets[j]]
                i < j < assets.len() && tradable(assets[j]) ==> listed_key(assets[j]) != listed_key(assets[i]))
                ==> assets_by_symbol(assets).contains_key(listed_key(assets[i]))
                && assets_by_symbol(assets)[listed_key(assets[i])] == assets[i],
        forall|k: Seq<char>|
            #![trigger assets_by_symbol(assets).contains_key(k)]
            assets_by_symbol(assets).contains_key(k) ==> exists|i: int|
                #![trigger assets[i]]
                0 <= i < assets.len() && tradable(assets[i]) && listed_key(assets[i]) == k
                    && assets_by_symbol(assets)[k] == assets[i],
    decreases assets.len(),
{
    if assets.len() > 0 {
        let pre = assets.drop_last();
        lemma_assets_by_symbol_index(pre);
        let last = assets.last();
        let n = assets.len() - 1;
        assert(symbol_of(last) == listed_key(last));
        assert(valid_asset_id(last.id) == tradable(last));
        assert forall|i: int|
            #![trigger assets[i]]
            0 <= i < assets.len() && tradable(assets[i]) && (forall|j: int|
                #![trigger assets[j]]
                i < j < assets.len() && tradable(assets[j]) ==> listed_key(assets[j]) != listed_key(assets[i]))
            implies assets_by_symbol(assets).contains_key(listed_key(assets[i]))
                && assets_by_symbol(assets)[listed_key(assets[i])] == assets[i] by {
            if i < n {
                assert(pre[i] == assets[i]);
                assert forall|j: int| #![trigger pre[j]] i < j < pre.len() && tradable(pre[j]) implies listed_key(
                    pre[j],
                ) != listed_key(pre[i]) by {
                    assert(pre[j] == assets[j]);
                }
                if tradable(last) {
                    assert(assets[n] == last);
                    assert(listed_key(last) != listed_key(assets[i]));
                }
            }
        }
        assert forall|k: Seq<char>|
            #![trigger assets_by_symbol(assets).contains_key(k)]
            assets_by_symbol(assets).contains_key(k) implies exists|i: int|
                #![trigger assets[i]]
                0 <= i < assets.len() && tradable(assets[i]) && listed_key(assets[i]) == k
                    && assets_by_symbol(assets)[k] == assets[i] by {
            if tradable(last) && k == listed_key(last) {
                assert(assets[n] == last);
            } else {
                assert(assets_by_symbol(pre).contains_key(k));
                let i = choose|i: int|
                    #![trigger pre[i]]
                    0 <= i < pre.len() && tradable(pre[i]) && listed_key(pre[i]) == k && assets_by_symbol(pre)[k]
                        == pre[i];
                assert(assets[i] == pre[i]);
            }
        }
    }
}

} // verus!
