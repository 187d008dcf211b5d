//! Read-only reports over the marketplace's query results: rankings of
//! accounts by average score, products by sales, and per-category rollups.
//! Fetching the results is the host's part; an unreachable marketplace is
//! handed in as empty results.
use vstd::prelude::*;

use crate::cuenta::AccountId;
use vstd::string::StrSliceExecFns;

use crate::reputacion::{media, ReputacionData};
use crate::vista::{
    suma_o_igual_u128,
    suma_o_igual_u32,
    sumar_o_mantener_u128,
    sumar_o_mantener_u32,
};

verus! {

/// Errors of the reporting component.
#[derive(Clone, Copy, PartialEq, Eq, Debug, Structural)]
pub enum ReportesError {
    /// A query to the marketplace failed.
    LlamadaFallida,
    /// No marketplace is configured.
    MarketplaceNoConfigurado,
}

/// The reporting component: it knows which marketplace it reads from.
#[derive(Clone, Copy, Debug)]
pub struct ReportesView {
    marketplace: AccountId,
}

impl ReportesView {
    /// The marketplace that the reports read from.
    pub closed spec fn spec_marketplace(&self) -> AccountId {
        self.marketplace
    }

    pub fn new(marketplace: AccountId) -> (r: ReportesView)
        ensures
            r.spec_marketplace() == marketplace,
    {
        ReportesView { marketplace }
    }

    /// Points the reports at another marketplace.
    pub fn actualizar_marketplace(&mut self, nuevo_marketplace: AccountId)
        ensures
            final(self).spec_marketplace() == nuevo_marketplace,
    {
        self.marketplace = nuevo_marketplace;
    }

    pub fn obtener_marketplace(&self) -> (r: AccountId)
        ensures
            r == self.spec_marketplace(),
    {
        self.marketplace
    }

    /// Number of orders of an account from the marketplace's answer; a
    /// failed query counts as zero.
    pub fn cantidad_ordenes_usuario(respuesta: Option<u32>) -> (r: u32)
        ensures
            r == (match respuesta {
                Some(n) => n,
                None => 0,
            }),
    {
        match respuesta {
            Some(n) => n,
            None => 0,
        }
    }
}

/// Position `a` of `s` ranks before position `b`: a higher value, or the
/// same value and an earlier position.
pub open spec fn antes_de<K>(s: Seq<(K, u128)>, a: int, b: int) -> bool {
    s[a].1 > s[b].1 || (s[a].1 == s[b].1 && a < b)
}

/// Position `j` occurs in `idx`.
pub open spec fn aparece(idx: Seq<int>, j: int) -> bool {
    exists|k: int| 0 <= k < idx.len() && idx[k] == j
}

/// `r` lists the entries of `s` at positions `idx`, which holds each
/// position of `s`, in an order that `antes_de` ranks strictly (so each
/// position once).
pub open spec fn es_ranking<K>(s: Seq<(K, u128)>, r: Seq<(K, u128)>, idx: Seq<int>) -> bool {
    &&& idx.len() == s.len()
    &&& r.len() == s.len()
    &&& forall|i: int| 0 <= i < idx.len() ==> 0 <= #[trigger] idx[i] < s.len() && r[i] == s[idx[i]]
    &&& forall|j: int| 0 <= j < s.len() ==> #[trigger] aparece(idx, j)
    &&& forall|i: int, j: int|
        0 <= i < j < idx.len() ==> antes_de(s, #[trigger] idx[i], #[trigger] idx[j])
}

/// `r` is `s` ordered by decreasing value, entries with equal values in the
/// order they have in `s`.
pub open spec fn ranking_de<K>(s: Seq<(K, u128)>, r: Seq<(K, u128)>) -> bool {
    exists|idx: Seq<int>| es_ranking(s, r, idx)
}

/// Two rankings of positions of `s` agree at every place up to `k`.
proof fn lemma_rankings_coinciden<K>(
    s: Seq<(K, u128)>,
    r1: Seq<(K, u128)>,
    i1: Seq<int>,
    r2: Seq<(K, u128)>,
    i2: Seq<int>,
    k: int,
)
    requires
        es_ranking(s, r1, i1),
        es_ranking(s, r2, i2),
        0 <= k < s.len(),
    ensures
        i1[k] == i2[k],
    decreases k,
{
    assert forall|j: int| 0 <= j < k implies i1[j] == i2[j] by {
        lemma_rankings_coinciden(s, r1, i1, r2, i2, j);
    }
    if i1[k] != i2[k] {
        let a = i1[k];
        let b = i2[k];
        assert(aparece(i2, a));
        assert(aparece(i1, b));
        let k2 = choose|k2: int| 0 <= k2 < i2.len() && i2[k2] == a;
        let k1 = choose|k1: int| 0 <= k1 < i1.len() && i1[k1] == b;
        if k2 < k {
            assert(i1[k2] == a);
            assert(antes_de(s, i1[k2], i1[k]));
        }
        if k1 < k {
            assert(i2[k1] == b);
            assert(antes_de(s, i2[k1], i2[k]));
        }
        assert(antes_de(s, i1[k], i1[k1]));
        assert(antes_de(s, i2[k], i2[k2]));
    }
}

/// There is one ranking of `s`: `ranking_de` determines its result.
pub proof fn lemma_ranking_unico<K>(s: Seq<(K, u128)>, r1: Seq<(K, u128)>, r2: Seq<(K, u128)>)
    requires
        ranking_de(s, r1),
        ranking_de(s, r2),
    ensures
        r1 == r2,
{
    let i1 = choose|idx: Seq<int>| es_ranking(s, r1, idx);
    let i2 = choose|idx: Seq<int>| es_ranking(s, r2, idx);
    assert forall|k: int| 0 <= k < r1.len() implies r1[k] == r2[k] by {
        lemma_rankings_coinciden(s, r1, i1, r2, i2, k);
    }
    assert(r1 =~= r2);
}

/// Orders `s` by decreasing value, keeping the order of equal values.
#[verifier::loop_isolation(false)]
pub fn ordenar_por_valor<K: Copy>(s: &Vec<(K, u128)>) -> (r: Vec<(K, u128)>)
    ensures
        ranking_de(s@, r@),
{
    let mut r: Vec<(K, u128)> = Vec::new();
    let ghost mut idx: Seq<int> = Seq::empty();
    let mut i: usize = 0;
    while i < s.len()
        invariant
            i <= s@.len(),
            r@.len() == i,
            idx.len() == i,
            forall|k: int| 0 <= k < i ==> 0 <= #[trigger] idx[k] < i && r@[k] == s@[idx[k]],
            forall|a: int, b: int| 0 <= a < b < i ==> antes_de(s@, #[trigger] idx[a], #[trigger] idx[b]),
            forall|j: int| 0 <= j < i ==> #[trigger] aparece(idx, j),
        decreases s@.len() - i,
    {
        let x = s[i];
        let mut p: usize = 0;
        while p < r.len() && r[p].1 >= x.1
            invariant
                p <= r@.len(),
                forall|q: int| 0 <= q < p ==> r@[q].1 >= x.1,
            decreases r@.len() - p,
        {
            p = p + 1;
        }
        let ghost viejo = r@;
        let ghost idx_viejo = idx;
        r.insert(p, x);
        proof {
            idx = idx_viejo.insert(p as int, i as int);
            assert forall|k: int| 0 <= k < i + 1 implies 0 <= #[trigger] idx[k] < i + 1 && r@[k]
                == s@[idx[k]] by {
                if k > p {
                    assert(idx[k] == idx_viejo[k - 1]);
                }
            }
            assert forall|j: int| 0 <= j < i + 1 implies #[trigger] aparece(idx, j) by {
                if j == i {
                    assert(idx[p as int] == j);
                } else {
                    assert(aparece(idx_viejo, j));
                    let k = choose|k: int| 0 <= k < i && idx_viejo[k] == j;
                    if k < p {
                        assert(idx[k] == j);
                    } else {
                        assert(idx[k + 1] == j);
                    }
                }
            }
            assert forall|a: int, b: int| 0 <= a < b < i + 1 implies antes_de(
                s@,
                #[trigger] idx[a],
                #[trigger] idx[b],
            ) by {
                if b < p {
                } else if b == p {
                    assert(viejo[a].1 >= x.1);
                    assert(idx_viejo[a] < i);
                } else if a < p {
                    assert(idx[b] == idx_viejo[b - 1]);
                    assert(antes_de(s@, idx_viejo[a], idx_viejo[b - 1]));
                } else if a == p {
                    assert(idx[b] == idx_viejo[b - 1]);
                    if p < b - 1 {
                        assert(antes_de(s@, idx_viejo[p as int], idx_viejo[b - 1]));
                    }
                    assert(viejo[p as int].1 < x.1);
                } else {
                    assert(idx[a] == idx_viejo[a - 1]);
                    assert(idx[b] == idx_viejo[b - 1]);
                    assert(antes_de(s@, idx_viejo[a - 1], idx_viejo[b - 1]));
                }
            }
        }
        i = i + 1;
    }
    proof {
        assert(es_ranking(s@, r@, idx));
    }
    r
}

/// The accounts of `s` that have an average score, as seller if
/// `como_vendedor` and as buyer otherwise, each with that average, in the
/// order of `s`.
pub open spec fn promedios(s: Seq<(AccountId, ReputacionData)>, como_vendedor: bool) -> Seq<
    (AccountId, u128),
>
    decreases s.len(),
{
    if s.len() == 0 {
        Seq::empty()
    } else {
        let previos = promedios(s.drop_last(), como_vendedor);
        let (a, rep) = s.last();
        let m = if como_vendedor {
            media(rep.suma_calificaciones_vendedor, rep.total_calificaciones_vendedor)
        } else {
            media(rep.suma_calificaciones_comprador, rep.total_calificaciones_comprador)
        };
        match m {
            Some(x) => previos.push((a, x)),
            None => previos,
        }
    }
}

/// The accounts with an average score, each with it.
fn calcular_promedios(usuarios: &Vec<(AccountId, ReputacionData)>, como_vendedor: bool) -> (r: Vec<
    (AccountId, u128),
>)
    ensures
        r@ == promedios(usuarios@, como_vendedor),
{
    let mut r: Vec<(AccountId, u128)> = Vec::new();
    let mut i: usize = 0;
    while i < usuarios.len()
        invariant
            i <= usuarios@.len(),
            r@ == promedios(usuarios@.take(i as int), como_vendedor),
        decreases usuarios@.len() - i,
    {
        let (cuenta, rep) = usuarios[i];
        proof {
            assert(usuarios@.take(i + 1).drop_last() =~= usuarios@.take(i as int));
        }
        let m = if como_vendedor {
            rep.promedio_vendedor()
        } else {
            rep.promedio_comprador()
        };
        match m {
            Some(x) => r.push((cuenta, x)),
            None => {},
        }
        i = i + 1;
    }
    proof {
        assert(usuarios@.take(i as int) =~= usuarios@);
    }
    r
}

/// The first `cantidad` accounts by decreasing average score, as seller if
/// `como_vendedor` and as buyer otherwise; accounts without such a score
/// are left out, and equal averages keep the order of `usuarios`.
pub fn obtener_top(usuarios: &Vec<(AccountId, ReputacionData)>, cantidad: usize, como_vendedor: bool)
    -> (r: Vec<(AccountId, u128)>)
    ensures
        exists|orden: Seq<(AccountId, u128)>|
            ranking_de(promedios(usuarios@, como_vendedor), orden) && r@ == orden.take(
                if cantidad < orden.len() {
                    cantidad as int
                } else {
                    orden.len() as int
                },
            ),
{
    let candidatos = calcular_promedios(usuarios, como_vendedor);
    let mut orden = ordenar_por_valor(&candidatos);
    let ghost completo = orden@;
    orden.truncate(cantidad);
    proof {
        if cantidad >= completo.len() {
            assert(completo.take(completo.len() as int) =~= completo);
        }
        assert(ranking_de(promedios(usuarios@, como_vendedor), completo));
    }
    orden
}

/// The `u32` values of `s`, widened.
pub open spec fn ampliar(s: Seq<(u128, u32)>) -> Seq<(u128, u128)> {
    s.map_values(|e: (u128, u32)| (e.0, e.1 as u128))
}

/// The values of `s`, narrowed to `u32`.
pub open spec fn reducir(s: Seq<(u128, u128)>) -> Seq<(u128, u32)> {
    s.map_values(|e: (u128, u128)| (e.0, e.1 as u32))
}

impl ReportesView {
    /// The five accounts with the best average score as seller.
    pub fn top_5_vendedores(usuarios: &Vec<(AccountId, ReputacionData)>) -> (r: Vec<(AccountId, u128)>)
        ensures
            exists|orden: Seq<(AccountId, u128)>|
                ranking_de(promedios(usuarios@, true), orden) && r@ == orden.take(
                    if 5 < orden.len() {
                        5
                    } else {
                        orden.len() as int
                    },
                ),
    {
        obtener_top(usuarios, 5, true)
    }

    /// The five accounts with the best average score as buyer.
    pub fn top_5_compradores(usuarios: &Vec<(AccountId, ReputacionData)>) -> (r: Vec<(AccountId, u128)>)
        ensures
            exists|orden: Seq<(AccountId, u128)>|
                ranking_de(promedios(usuarios@, false), orden) && r@ == orden.take(
                    if 5 < orden.len() {
                        5
                    } else {
                        orden.len() as int
                    },
                ),
    {
        obtener_top(usuarios, 5, false)
    }

    /// Products with their sales, by decreasing sales; equal sales keep the
    /// order of `ventas`.
    pub fn productos_mas_vendidos(ventas: &Vec<(u128, u32)>) -> (r: Vec<(u128, u32)>)
        ensures
            exists|orden: Seq<(u128, u128)>| ranking_de(ampliar(ventas@), orden) && r@ == reducir(orden),
    {
        let mut anchos: Vec<(u128, u128)> = Vec::new();
        let mut i: usize = 0;
        while i < ventas.len()
            invariant
                i <= ventas@.len(),
                anchos@ == ampliar(ventas@.take(i as int)),
            decreases ventas@.len() - i,
        {
            let (id, n) = ventas[i];
            anchos.push((id, n as u128));
            proof {
                assert(anchos@ =~= ampliar(ventas@.take(i + 1)));
            }
            i = i + 1;
        }
        proof {
            assert(ventas@.take(i as int) =~= ventas@);
        }
        let orden = ordenar_por_valor(&anchos);
        let ghost idx = choose|idx: Seq<int>| es_ranking(anchos@, orden@, idx);
        let mut r: Vec<(u128, u32)> = Vec::new();
        let mut k: usize = 0;
        while k < orden.len()
            invariant
                k <= orden@.len(),
                es_ranking(anchos@, orden@, idx),
                anchos@ == ampliar(ventas@),
                r@ == reducir(orden@.take(k as int)),
            decreases orden@.len() - k,
        {
            let (id, n) = orden[k];
            proof {
                assert(0 <= idx[k as int] < anchos@.len());
            }
            r.push((id, n as u32));
            proof {
                assert(r@ =~= reducir(orden@.take(k + 1)));
            }
            k = k + 1;
        }
        proof {
            assert(orden@.take(k as int) =~= orden@);
        }
        r
    }
}

/// Lexicographic order of texts by code point, which for UTF-8 text is the
/// order of `String`'s `Ord`.
pub open spec fn texto_menor(a: Seq<char>, b: Seq<char>) -> bool
    decreases a.len(),
{
    if a.len() == 0 {
        b.len() > 0
    } else if b.len() == 0 {
        false
    } else if a[0] != b[0] {
        a[0] < b[0]
    } else {
        texto_menor(a.drop_first(), b.drop_first())
    }
}

proof fn lemma_menor_irreflexivo(a: Seq<char>)
    ensures
        !texto_menor(a, a),
    decreases a.len(),
{
    if a.len() > 0 {
        lemma_menor_irreflexivo(a.drop_first());
    }
}

proof fn lemma_menor_total(a: Seq<char>, b: Seq<char>)
    requires
        a != b,
    ensures
        texto_menor(a, b) || texto_menor(b, a),
    decreases a.len(),
{
    if a.len() > 0 && b.len() > 0 && a[0] == b[0] {
        if a.drop_first() == b.drop_first() {
            assert(a.drop_first().len() == b.drop_first().len());
            assert(a.len() == b.len());
            assert forall|i: int| 0 <= i < a.len() implies a[i] == b[i] by {
                if i > 0 {
                    assert(a[i] == a.drop_first()[i - 1]);
                    assert(b[i] == b.drop_first()[i - 1]);
                }
            }
            assert(a =~= b);
        }
        lemma_menor_total(a.drop_first(), b.drop_first());
    } else if a.len() == 0 && b.len() == 0 {
        assert(a =~= b);
    }
}

proof fn lemma_menor_transitivo(a: Seq<char>, b: Seq<char>, c: Seq<char>)
    requires
        texto_menor(a, b),
        texto_menor(b, c),
    ensures
        texto_menor(a, c),
    decreases a.len(),
{
    if a.len() > 0 && b.len() > 0 && c.len() > 0 && a[0] == b[0] && b[0] == c[0] {
        lemma_menor_transitivo(a.drop_first(), b.drop_first(), c.drop_first());
    }
}

/// Whether `a` comes before `b` in the order of texts.
fn es_menor(a: &String, b: &String) -> (r: bool)
    ensures
        r == texto_menor(a@, b@),
{
    let la = a.as_str().unicode_len();
    let lb = b.as_str().unicode_len();
    let mut i: usize = 0;
    proof {
        assert(a@.skip(0) =~= a@);
        assert(b@.skip(0) =~= b@);
    }
    while i < la && i < lb
        invariant
            i <= la == a@.len(),
            i <= lb == b@.len(),
            texto_menor(a@, b@) == texto_menor(a@.skip(i as int), b@.skip(i as int)),
        decreases la - i,
    {
        let ca = a.as_str().get_char(i);
        let cb = b.as_str().get_char(i);
        if ca != cb {
            return ca < cb;
        }
        proof {
            assert(a@.skip(i as int).drop_first() =~= a@.skip(i + 1));
            assert(b@.skip(i as int).drop_first() =~= b@.skip(i + 1));
        }
        i = i + 1;
    }
    i == la && i < lb
}

/// Statistics added component by component; a component whose sum would
/// pass its ceiling keeps the first value.
pub open spec fn sumar_estadisticas(a: (u32, u128, u32), b: (u32, u128, u32)) -> (u32, u128, u32) {
    (suma_o_igual_u32(a.0, b.0), suma_o_igual_u128(a.1, b.1), suma_o_igual_u32(a.2, b.2))
}

/// Per category, the sum of the statistics that `entradas` gives for it;
/// an entry without statistics adds nothing, not even its category.
pub open spec fn acumulado(entradas: Seq<(Seq<char>, Option<(u32, u128, u32)>)>) -> Map<
    Seq<char>,
    (u32, u128, u32),
>
    decreases entradas.len(),
{
    if entradas.len() == 0 {
        Map::empty()
    } else {
        let m = acumulado(entradas.drop_last());
        let (c, e) = entradas.last();
        match e {
            Some(st) => m.insert(
                c,
                sumar_estadisticas(
                    if m.contains_key(c) {
                        m[c]
                    } else {
                        (0, 0, 0)
                    },
                    st,
                ),
            ),
            None => m,
        }
    }
}

/// Entries keyed by the text of their category.
pub open spec fn entradas_vista(s: Seq<(String, Option<(u32, u128, u32)>)>) -> Seq<
    (Seq<char>, Option<(u32, u128, u32)>),
> {
    s.map_values(|e: (String, Option<(u32, u128, u32)>)| (e.0@, e.1))
}

/// `acc` is ordered strictly by category and holds exactly the categories
/// of `m`, each with its statistics.
pub open spec fn refleja(acc: Seq<(String, (u32, u128, u32))>, m: Map<Seq<char>, (u32, u128, u32)>) -> bool {
    &&& forall|i: int, j: int|
        0 <= i < j < acc.len() ==> texto_menor(#[trigger] acc[i].0@, #[trigger] acc[j].0@)
    &&& forall|k: Seq<char>| #[trigger]
        m.contains_key(k) ==> exists|i: int| 0 <= i < acc.len() && acc[i].0@ == k
    &&& forall|i: int|
        0 <= i < acc.len() ==> m.contains_key(#[trigger] acc[i].0@) && m[acc[i].0@] == acc[i].1
}

/// The per-category sums of `entradas`, ordered by category.
fn acumular_por_categoria(entradas: &Vec<(String, Option<(u32, u128, u32)>)>) -> (r: Vec<
    (String, (u32, u128, u32)),
>)
    ensures
        refleja(r@, acumulado(entradas_vista(entradas@))),
{
    let mut acc: Vec<(String, (u32, u128, u32))> = Vec::new();
    let mut i: usize = 0;
    while i < entradas.len()
        invariant
            i <= entradas@.len(),
            refleja(acc@, acumulado(entradas_vista(entradas@.take(i as int)))),
        decreases entradas@.len() - i,
    {
        let ghost m = acumulado(entradas_vista(entradas@.take(i as int)));
        proof {
            assert(entradas_vista(entradas@.take(i + 1)).drop_last() =~= entradas_vista(
                entradas@.take(i as int),
            ));
        }
        match &entradas[i].1 {
            None => {},
            Some(st) => {
                let categoria = &entradas[i].0;
                let mut p: usize = 0;
                while p < acc.len() && es_menor(&acc[p].0, categoria)
                    invariant
                        p <= acc@.len(),
                        forall|q: int| 0 <= q < p ==> texto_menor(#[trigger] acc@[q].0@, categoria@),
                    decreases acc@.len() - p,
                {
                    p = p + 1;
                }
                let ghost viejo = acc@;
                let ghost c = categoria@;
                let encontrada = p < acc.len() && acc[p].0 == *categoria;
                let base = if encontrada {
                    acc[p].1
                } else {
                    (0u32, 0u128, 0u32)
                };
                let nuevas = (
                    sumar_o_mantener_u32(base.0, st.0),
                    sumar_o_mantener_u128(base.1, st.1),
                    sumar_o_mantener_u32(base.2, st.2),
                );
                proof {
                    assert forall|q: int| 0 <= q < viejo.len() && q != p implies viejo[q].0@ != c by {
                        if q < p {
                            lemma_menor_irreflexivo(c);
                        } else if p < viejo.len() {
                            if viejo[q].0@ == c {
                                assert(texto_menor(viejo[p as int].0@, viejo[q].0@));
                            }
                        }
                    }
                    if !encontrada {
                        assert forall|q: int| 0 <= q < viejo.len() implies viejo[q].0@ != c by {
                            if q == p {
                                assert(viejo[q].0@ != c);
                            }
                        }
                        assert(!m.contains_key(c));
                    }
                }
                if encontrada {
                    acc.set(p, (categoria.clone(), nuevas));
                    proof {
                        let m2 = m.insert(c, nuevas);
                        assert(m2 == acumulado(entradas_vista(entradas@.take(i + 1))));
                        assert forall|i2: int, j2: int| 0 <= i2 < j2 < acc@.len() implies texto_menor(
                            #[trigger] acc@[i2].0@,
                            #[trigger] acc@[j2].0@,
                        ) by {
                            assert(viejo[i2].0@ == acc@[i2].0@);
                            assert(viejo[j2].0@ == acc@[j2].0@);
                        }
                        assert forall|k: Seq<char>| #[trigger] m2.contains_key(k) implies exists|q: int|
                            0 <= q < acc@.len() && acc@[q].0@ == k by {
                            if k != c {
                                let q = choose|q: int| 0 <= q < viejo.len() && viejo[q].0@ == k;
                                assert(acc@[q].0@ == k);
                            } else {
                                assert(acc@[p as int].0@ == k);
                            }
                        }
                    }
                } else {
                    acc.insert(p, (categoria.clone(), nuevas));
                    proof {
                        let m2 = m.insert(c, nuevas);
                        assert(m2 == acumulado(entradas_vista(entradas@.take(i + 1))));
                        if p < viejo.len() {
                            lemma_menor_total(viejo[p as int].0@, c);
                        }
                        assert forall|q: int| p <= q < viejo.len() implies texto_menor(
                            c,
                            #[trigger] viejo[q].0@,
                        ) by {
                            if q > p {
                                lemma_menor_transitivo(c, viejo[p as int].0@, viejo[q].0@);
                            }
                        }
                        assert forall|i2: int, j2: int| 0 <= i2 < j2 < acc@.len() implies texto_menor(
                            #[trigger] acc@[i2].0@,
                            #[trigger] acc@[j2].0@,
                        ) by {
                            if j2 < p {
                            } else if j2 == p {
                            } else if i2 < p {
                                assert(acc@[j2] == viejo[j2 - 1]);
                                assert(texto_menor(viejo[i2].0@, c));
                                lemma_menor_transitivo(viejo[i2].0@, c, viejo[j2 - 1].0@);
                            } else if i2 == p {
                                assert(acc@[j2] == viejo[j2 - 1]);
                            } else {
                                assert(acc@[i2] == viejo[i2 - 1]);
                                assert(acc@[j2] == viejo[j2 - 1]);
                            }
                        }
                        assert forall|k: Seq<char>| #[trigger] m2.contains_key(k) implies exists|q: int|
                            0 <= q < acc@.len() && acc@[q].0@ == k by {
                            if k != c {
                                let q = choose|q: int| 0 <= q < viejo.len() && viejo[q].0@ == k;
                                if q < p {
                                    assert(acc@[q].0@ == k);
                                } else {
                                    assert(acc@[q + 1].0@ == k);
                                }
                            } else {
                                assert(acc@[p as int].0@ == k);
                            }
                        }
                        assert forall|q: int| 0 <= q < acc@.len() implies m2.contains_key(
                            #[trigger] acc@[q].0@,
                        ) && m2[acc@[q].0@] == acc@[q].1 by {
                            if q > p {
                                assert(acc@[q] == viejo[q - 1]);
                            }
                        }
                    }
                }
            },
        }
        i = i + 1;
    }
    proof {
        assert(entradas@.take(i as int) =~= entradas@);
    }
    acc
}

impl ReportesView {
    /// Per category, in the order of categories: completed sales and the
    /// average score, summed over `entradas`. Each entry is a product's
    /// category with the statistics the marketplace gave for it, if any; a
    /// sum that would pass its ceiling keeps its value.
    pub fn estadisticas_por_categoria(entradas: &Vec<(String, Option<(u32, u128, u32)>)>) -> (r: Vec<
        (String, u32, Option<u128>),
    >)
        ensures
            ({
                let m = acumulado(entradas_vista(entradas@));
                &&& forall|i: int, j: int|
                    0 <= i < j < r@.len() ==> texto_menor(#[trigger] r@[i].0@, #[trigger] r@[j].0@)
                &&& forall|k: Seq<char>| #[trigger]
                    m.contains_key(k) ==> exists|i: int| 0 <= i < r@.len() && r@[i].0@ == k
                &&& forall|i: int|
                    0 <= i < r@.len() ==> m.contains_key(#[trigger] r@[i].0@) && r@[i].1 == m[r@[i].0@].0
                        && r@[i].2 == media(m[r@[i].0@].1, m[r@[i].0@].2)
            }),
    {
        let acc = acumular_por_categoria(entradas);
        let ghost m = acumulado(entradas_vista(entradas@));
        let mut r: Vec<(String, u32, Option<u128>)> = Vec::new();
        let mut k: usize = 0;
        while k < acc.len()
            invariant
                k <= acc@.len(),
                refleja(acc@, m),
                r@.len() == k,
                forall|q: int|
                    0 <= q < k ==> r@[q].0@ == acc@[q].0@ && r@[q].1 == acc@[q].1.0 && r@[q].2
                        == media(acc@[q].1.1, acc@[q].1.2),
            decreases acc@.len() - k,
        {
            let (total_ventas, suma, cantidad) = acc[k].1;
            let promedio = if cantidad > 0 {
                suma.checked_div(cantidad as u128)
            } else {
                None
            };
            r.push((acc[k].0.clone(), total_ventas, promedio));
            k = k + 1;
        }
        proof {
            assert forall|i: int, j: int| 0 <= i < j < r@.len() implies texto_menor(
                #[trigger] r@[i].0@,
                #[trigger] r@[j].0@,
            ) by {
                assert(texto_menor(acc@[i].0@, acc@[j].0@));
            }
            assert forall|c: Seq<char>| #[trigger] m.contains_key(c) implies exists|i: int|
                0 <= i < r@.len() && r@[i].0@ == c by {
                let i = choose|i: int| 0 <= i < acc@.len() && acc@[i].0@ == c;
                assert(r@[i].0@ == c);
            }
            assert forall|i: int| 0 <= i < r@.len() implies m.contains_key(#[trigger] r@[i].0@)
                && r@[i].1 == m[r@[i].0@].0 && r@[i].2 == media(m[r@[i].0@].1, m[r@[i].0@].2) by {
                assert(m.contains_key(acc@[i].0@));
            }
        }
        r
    }
}

} // verus!
