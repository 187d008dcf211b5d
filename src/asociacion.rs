//! Association lists: a sequence of `(key, value)` pairs with distinct keys,
//! read as the map from each key to its value. The marketplace keeps the
//! data it looks up by account or by category this way.
use vstd::prelude::*;

use crate::cuenta::AccountId;

verus! {

/// The map that a list of pairs stands for; a later pair wins over an
/// earlier one with the same key.
pub open spec fn mapa<K, V>(s: Seq<(K, V)>) -> Map<K, V>
    decreases s.len(),
{
    if s.len() == 0 {
        Map::empty()
    } else {
        mapa(s.drop_last()).insert(s.last().0, s.last().1)
    }
}

/// No key occurs twice.
pub open spec fn claves_unicas<K, V>(s: Seq<(K, V)>) -> bool {
    forall|i: int, j: int| 0 <= i < j < s.len() ==> s[i].0 != s[j].0
}

pub proof fn lemma_mapa_dominio<K, V>(s: Seq<(K, V)>, k: K)
    ensures
        mapa(s).contains_key(k) <==> exists|i: int| 0 <= i < s.len() && s[i].0 == k,
    decreases s.len(),
{
    if s.len() > 0 {
        lemma_mapa_dominio(s.drop_last(), k);
        if mapa(s.drop_last()).contains_key(k) {
            let i = choose|i: int| 0 <= i < s.drop_last().len() && s.drop_last()[i].0 == k;
            assert(s[i].0 == k);
        }
        if exists|i: int| 0 <= i < s.len() && s[i].0 == k {
            let i = choose|i: int| 0 <= i < s.len() && s[i].0 == k;
            if i < s.len() - 1 {
                assert(s.drop_last()[i].0 == k);
            }
        }
    }
}

pub proof fn lemma_mapa_valor<K, V>(s: Seq<(K, V)>, i: int)
    requires
        claves_unicas(s),
        0 <= i < s.len(),
    ensures
        mapa(s).contains_key(s[i].0),
        mapa(s)[s[i].0] == s[i].1,
    decreases s.len(),
{
    if i < s.len() - 1 {
        lemma_mapa_valor(s.drop_last(), i);
    }
}

pub proof fn lemma_mapa_actualizar<K, V>(s: Seq<(K, V)>, i: int, v: V)
    requires
        claves_unicas(s),
        0 <= i < s.len(),
    ensures
        claves_unicas(s.update(i, (s[i].0, v))),
        mapa(s.update(i, (s[i].0, v))) == mapa(s).insert(s[i].0, v),
    decreases s.len(),
{
    let t = s.update(i, (s[i].0, v));
    if i == s.len() - 1 {
        assert(t.drop_last() =~= s.drop_last());
        assert(mapa(t) =~= mapa(s).insert(s[i].0, v));
    } else {
        lemma_mapa_actualizar(s.drop_last(), i, v);
        assert(t.drop_last() =~= s.drop_last().update(i, (s[i].0, v)));
        assert(mapa(t) =~= mapa(s).insert(s[i].0, v));
    }
}

pub proof fn lemma_mapa_agregar<K, V>(s: Seq<(K, V)>, k: K, v: V)
    requires
        claves_unicas(s),
        !mapa(s).contains_key(k),
    ensures
        claves_unicas(s.push((k, v))),
        mapa(s.push((k, v))) == mapa(s).insert(k, v),
{
    lemma_mapa_dominio(s, k);
    assert(s.push((k, v)).drop_last() =~= s);
    assert forall|i: int, j: int| 0 <= i < j < s.push((k, v)).len() implies s.push((k, v))[i].0
        != s.push((k, v))[j].0 by {
        if j == s.len() {
            assert(s[i].0 != k);
        }
    }
}

/// Position of the pair whose key is `cuenta`, if any.
pub fn buscar_cuenta<V>(s: &Vec<(AccountId, V)>, cuenta: &AccountId) -> (r: Option<usize>)
    ensures
        match r {
            Some(i) => i < s@.len() && s@[i as int].0 == *cuenta,
            None => forall|i: int| 0 <= i < s@.len() ==> s@[i].0 != *cuenta,
        },
{
    let mut i: usize = 0;
    while i < s.len()
        invariant
            i <= s@.len(),
            forall|j: int| 0 <= j < i ==> s@[j].0 != *cuenta,
        decreases s@.len() - i,
    {
        if s[i].0 == *cuenta {
            return Some(i);
        }
        i = i + 1;
    }
    None
}

/// Position of the pair whose key reads as `clave`, if any.
pub fn buscar_texto<V>(s: &Vec<(String, V)>, clave: &String) -> (r: Option<usize>)
    ensures
        match r {
            Some(i) => i < s@.len() && s@[i as int].0@ == clave@,
            None => forall|i: int| 0 <= i < s@.len() ==> s@[i].0@ != clave@,
        },
{
    let mut i: usize = 0;
    while i < s.len()
        invariant
            i <= s@.len(),
            forall|j: int| 0 <= j < i ==> s@[j].0@ != clave@,
        decreases s@.len() - i,
    {
        if s[i].0 == *clave {
            return Some(i);
        }
        i = i + 1;
    }
    None
}

} // verus!
