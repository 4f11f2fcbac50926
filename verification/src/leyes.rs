//! Propiedades del protocolo de reparto que relacionan las decisiones de
//! varios mineros o varias llamadas.

use vstd::prelude::*;
use vstd::multiset::Multiset;
use crate::minero::{
    Minero, cantidad_activos, cuenta_informes, cuenta_si, es_cota_inferior_activa, es_id_destino, informe_no_supera,
    hay_mensaje_activo, multiples_minimos, supera_a_todos,
};
use crate::minero::{lema_cuenta_dos, lema_cuenta_positiva};
use crate::minero_net::Mensaje;

verus! {

/// El informe `(p, id)` está a la vista del minero `m` que recibió `s`: es
/// su propio informe o el de alguno de los mensajes activos.
pub open spec fn a_la_vista(m: Minero, s: Seq<Mensaje>, p: int, id: int) -> bool {
    ||| (p == m.pepitas_obtenidas && id == m.id)
    ||| exists|k: int|
        0 <= k < s.len() && s[k].activo && #[trigger] s[k].pepitas == p && s[k].id_minero_sender
            == id
}

/// El destino de una entrega está determinado: a lo sumo un id cumple la
/// especificación de `obtener_id_minero_destino` para los mismos mensajes.
pub proof fn ley_destino_determinado(s: Seq<Mensaje>, r1: i32, r2: i32)
    requires
        es_id_destino(s, r1),
        es_id_destino(s, r2),
    ensures
        r1 == r2,
{
    if hay_mensaje_activo(s) {
        let j1 = choose|j: int|
            0 <= j < s.len() && s[j].activo && #[trigger] s[j].id_minero_sender == r1 && supera_a_todos(
                s,
                s[j].pepitas as int,
                r1 as int,
            );
        let j2 = choose|j: int|
            0 <= j < s.len() && s[j].activo && #[trigger] s[j].id_minero_sender == r2 && supera_a_todos(
                s,
                s[j].pepitas as int,
                r2 as int,
            );
        assert(informe_no_supera(s[j1].pepitas as int, r1 as int, s[j2].pepitas as int, r2 as int));
        assert(informe_no_supera(s[j2].pepitas as int, r2 as int, s[j1].pepitas as int, r1 as int));
    }
}

/// Dos mineros activos distintos que recibieron el informe activo del otro no
/// pueden decidir ambos entregar sus pepitas.
pub proof fn ley_un_solo_entregador(a: Minero, sa: Seq<Mensaje>, b: Minero, sb: Seq<Mensaje>)
    requires
        a.id != b.id,
        exists|k: int|
            0 <= k < sa.len() && #[trigger] sa[k].id_minero_sender == b.id && sa[k].activo
                && sa[k].pepitas == b.pepitas_obtenidas,
        exists|k: int|
            0 <= k < sb.len() && #[trigger] sb[k].id_minero_sender == a.id && sb[k].activo
                && sb[k].pepitas == a.pepitas_obtenidas,
    ensures
        !(a.debe_entregar(sa) && b.debe_entregar(sb)),
{
    let ka = choose|k: int|
        0 <= k < sa.len() && #[trigger] sa[k].id_minero_sender == b.id && sa[k].activo
            && sa[k].pepitas == b.pepitas_obtenidas;
    let kb = choose|k: int|
        0 <= k < sb.len() && #[trigger] sb[k].id_minero_sender == a.id && sb[k].activo
            && sb[k].pepitas == a.pepitas_obtenidas;
    assert(sa[ka].activo);
    assert(sb[kb].activo);
}

/// Dos mineros distintos que tienen a la vista los mismos informes no pueden
/// tener ambos el informe mayor: a lo sumo uno de ellos espera recibir.
pub proof fn ley_un_solo_receptor(a: Minero, sa: Seq<Mensaje>, b: Minero, sb: Seq<Mensaje>)
    requires
        a.id != b.id,
        forall|p: int, id: int| #[trigger] a_la_vista(a, sa, p, id) == a_la_vista(b, sb, p, id),
    ensures
        !(a.tiene_el_maximo(sa) && b.tiene_el_maximo(sb)),
{
    if a.tiene_el_maximo(sa) && b.tiene_el_maximo(sb) {
        let (pa, pb) = (testigo_maximo(a, sa), testigo_maximo(b, sb));
        testigo_a_la_vista(a, sa);
        testigo_a_la_vista(b, sb);
        assert(a_la_vista(b, sb, pa, a.id as int));
        assert(a_la_vista(a, sa, pb, b.id as int));
        cota_de_la_vista(a, sa, pa, pb, b.id as int);
        cota_de_la_vista(b, sb, pb, pa, a.id as int);
    }
}

/// Las pepitas del informe con el id del minero que supera a todos los
/// informes a su vista.
spec fn testigo_maximo(m: Minero, s: Seq<Mensaje>) -> int {
    if supera_a_todos(s, m.pepitas_obtenidas as int, m.id as int) {
        m.pepitas_obtenidas as int
    } else {
        let j = choose|j: int|
            0 <= j < s.len() && s[j].activo && #[trigger] s[j].id_minero_sender == m.id
                && informe_no_supera(
                m.pepitas_obtenidas as int,
                m.id as int,
                s[j].pepitas as int,
                m.id as int,
            ) && supera_a_todos(s, s[j].pepitas as int, m.id as int);
        s[j].pepitas as int
    }
}

/// El informe que da el máximo está a la vista del minero.
proof fn testigo_a_la_vista(m: Minero, s: Seq<Mensaje>)
    requires
        m.tiene_el_maximo(s),
    ensures
        a_la_vista(m, s, testigo_maximo(m, s), m.id as int),
{
    if !supera_a_todos(s, m.pepitas_obtenidas as int, m.id as int) {
        let j = choose|j: int|
            0 <= j < s.len() && s[j].activo && #[trigger] s[j].id_minero_sender == m.id
                && informe_no_supera(
                m.pepitas_obtenidas as int,
                m.id as int,
                s[j].pepitas as int,
                m.id as int,
            ) && supera_a_todos(s, s[j].pepitas as int, m.id as int);
        assert(s[j].pepitas == testigo_maximo(m, s));
    }
}

/// El testigo del máximo está a la vista y ningún informe a la vista lo supera.
proof fn cota_de_la_vista(m: Minero, s: Seq<Mensaje>, pm: int, p: int, id: int)
    requires
        m.tiene_el_maximo(s),
        pm == testigo_maximo(m, s),
        a_la_vista(m, s, p, id),
    ensures
        informe_no_supera(p, id, pm, m.id as int),
        a_la_vista(m, s, pm, m.id as int),
{
    if !supera_a_todos(s, m.pepitas_obtenidas as int, m.id as int) {
        let j = choose|j: int|
            0 <= j < s.len() && s[j].activo && #[trigger] s[j].id_minero_sender == m.id
                && informe_no_supera(
                m.pepitas_obtenidas as int,
                m.id as int,
                s[j].pepitas as int,
                m.id as int,
            ) && supera_a_todos(s, s[j].pepitas as int, m.id as int);
        assert(s[j].pepitas == pm);
    }
    if !(p == m.pepitas_obtenidas && id == m.id) {
        let k = choose|k: int|
            0 <= k < s.len() && s[k].activo && #[trigger] s[k].pepitas == p && s[k].id_minero_sender
                == id;
        assert(s[k].id_minero_sender == id);
    }
}

/// El destino que calcula quien entrega es el minero que tiene el máximo:
/// cuando `r` tiene el informe mayor, ningún mensaje activo suyo trae su
/// propio id, cada mensaje activo de quien entrega está a la vista de `r` y
/// el informe activo de `r` está entre esos mensajes, el destino es `r.id`.
pub proof fn ley_destino_es_receptor(sg: Seq<Mensaje>, r: Minero, sr: Seq<Mensaje>)
    requires
        r.tiene_el_maximo(sr),
        forall|k: int| 0 <= k < sr.len() && sr[k].activo ==> #[trigger] sr[k].id_minero_sender != r.id,
        forall|k: int|
            0 <= k < sg.len() && sg[k].activo ==> a_la_vista(
                r,
                sr,
                #[trigger] sg[k].pepitas as int,
                sg[k].id_minero_sender as int,
            ),
        exists|k: int|
            0 <= k < sg.len() && sg[k].activo && #[trigger] sg[k].id_minero_sender == r.id
                && sg[k].pepitas == r.pepitas_obtenidas,
    ensures
        es_id_destino(sg, r.id),
{
    let pm = testigo_maximo(r, sr);
    if !supera_a_todos(sr, r.pepitas_obtenidas as int, r.id as int) {
        let j = choose|j: int|
            0 <= j < sr.len() && sr[j].activo && #[trigger] sr[j].id_minero_sender == r.id
                && informe_no_supera(
                r.pepitas_obtenidas as int,
                r.id as int,
                sr[j].pepitas as int,
                r.id as int,
            ) && supera_a_todos(sr, sr[j].pepitas as int, r.id as int);
        assert(sr[j].id_minero_sender != r.id);
    }
    let k0 = choose|k: int|
        0 <= k < sg.len() && sg[k].activo && #[trigger] sg[k].id_minero_sender == r.id
            && sg[k].pepitas == r.pepitas_obtenidas;
    assert(sg[k0].activo);
    assert forall|k: int| #![trigger sg[k]] 0 <= k < sg.len() && sg[k].activo implies informe_no_supera(
        sg[k].pepitas as int,
        sg[k].id_minero_sender as int,
        sg[k0].pepitas as int,
        r.id as int,
    ) by {
        cota_de_la_vista(r, sr, pm, sg[k].pepitas as int, sg[k].id_minero_sender as int);
    }
    assert(supera_a_todos(sg, sg[k0].pepitas as int, r.id as int));
}

/// Contar sobre una concatenación es sumar lo contado en cada parte.
proof fn lema_cuenta_concat(a: Seq<Mensaje>, b: Seq<Mensaje>, p: spec_fn(Mensaje) -> bool)
    ensures
        cuenta_si(a + b, p) == cuenta_si(a, p) + cuenta_si(b, p),
    decreases b.len(),
{
    if b.len() == 0 {
        assert(a + b =~= a);
    } else {
        lema_cuenta_concat(a, b.drop_last(), p);
        assert((a + b).drop_last() =~= a + b.drop_last());
    }
}

/// Lo contado no depende del orden de los mensajes.
proof fn lema_cuenta_permutacion(s1: Seq<Mensaje>, s2: Seq<Mensaje>, p: spec_fn(Mensaje) -> bool)
    requires
        s1.to_multiset() == s2.to_multiset(),
    ensures
        cuenta_si(s1, p) == cuenta_si(s2, p),
    decreases s1.len(),
{
    broadcast use vstd::seq_lib::group_to_multiset_ensures;

    if s1.len() == 0 {
        assert(s2.len() == s2.to_multiset().len());
    } else {
        let x = s1.last();
        let t1 = s1.drop_last();
        assert(s1 =~= t1.push(x));
        assert(s1.to_multiset() == t1.push(x).to_multiset());
        assert(s1.contains(x));
        assert(s1.to_multiset().count(x) > 0);
        assert(s2.to_multiset().count(x) > 0);
        assert(s2.contains(x));
        let i = choose|i: int| 0 <= i < s2.len() && s2[i] == x;
        let t2 = s2.remove(i);
        assert(t2.to_multiset() == s2.to_multiset().remove(x));
        assert(t1.to_multiset() =~= t1.to_multiset().insert(x).remove(x));
        assert(t1.to_multiset() =~= t2.to_multiset());
        lema_cuenta_permutacion(t1, t2, p);
        let a = s2.subrange(0, i);
        let c = s2.subrange(i + 1, s2.len() as int);
        assert(s2 =~= a + (seq![x] + c));
        assert(t2 =~= a + c);
        lema_cuenta_concat(a, seq![x] + c, p);
        lema_cuenta_concat(seq![x], c, p);
        lema_cuenta_concat(a, c, p);
        assert(seq![x].drop_last() =~= Seq::<Mensaje>::empty());
        assert(cuenta_si(seq![x], p) == cuenta_si(Seq::<Mensaje>::empty(), p) + if p(x) {
            1nat
        } else {
            0nat
        });
        assert(cuenta_si(s1, p) == cuenta_si(t1, p) + if p(x) {
            1nat
        } else {
            0nat
        });
        assert(cuenta_si(s2, p) == cuenta_si(a + (seq![x] + c), p));
        assert(cuenta_si(t2, p) == cuenta_si(a + c, p));
    }
}

/// Todo mensaje de `s1` está también en `s2`.
pub open spec fn incluidos(s1: Seq<Mensaje>, s2: Seq<Mensaje>) -> bool {
    forall|k: int| 0 <= k < s1.len() ==> s2.contains(#[trigger] s1[k])
}

/// Si cada lista tiene los mensajes de la otra, lo que una decide implica lo
/// que decide la otra.
proof fn lema_decisiones_con_los_mismos_mensajes(
    m: Minero,
    s1: Seq<Mensaje>,
    s2: Seq<Mensaje>,
    r: i32,
)
    requires
        incluidos(s1, s2),
        incluidos(s2, s1),
    ensures
        m.debe_entregar(s1) ==> m.debe_entregar(s2),
        m.tiene_el_maximo(s1) ==> m.tiene_el_maximo(s2),
        es_id_destino(s1, r) ==> es_id_destino(s2, r),
        forall|p: int, id: int| #[trigger] supera_a_todos(s1, p, id) ==> supera_a_todos(s2, p, id),
        forall|p: int| #[trigger] es_cota_inferior_activa(s1, p) ==> es_cota_inferior_activa(s2, p),
{
    assert forall|p: int, id: int| #[trigger] supera_a_todos(s1, p, id) implies supera_a_todos(
        s2,
        p,
        id,
    ) by {
        assert forall|k: int|
            #![trigger s2[k]]
            0 <= k < s2.len() && s2[k].activo implies informe_no_supera(
            s2[k].pepitas as int,
            s2[k].id_minero_sender as int,
            p,
            id,
        ) by {
            assert(s1.contains(s2[k]));
            let j = choose|j: int| 0 <= j < s1.len() && s1[j] == s2[k];
            assert(s1[j] == s2[k]);
        }
    }
    assert forall|p: int| #[trigger] es_cota_inferior_activa(s1, p) implies es_cota_inferior_activa(
        s2,
        p,
    ) by {
        assert forall|k: int| 0 <= k < s2.len() && #[trigger] s2[k].activo implies s2[k].pepitas
            >= p by {
            assert(s1.contains(s2[k]));
            let j = choose|j: int| 0 <= j < s1.len() && s1[j] == s2[k];
            assert(s1[j].activo);
        }
    }
    if m.debe_entregar(s1) {
        let k = choose|k: int| 0 <= k < s1.len() && #[trigger] s1[k].activo;
        assert(s2.contains(s1[k]));
        let j = choose|j: int| 0 <= j < s2.len() && s2[j] == s1[k];
        assert(s2[j].activo);
        assert forall|i: int|
            #![trigger s2[i]]
            0 <= i < s2.len() && s2[i].activo && s2[i].id_minero_sender != m.id implies s2[i].pepitas
            > m.pepitas_obtenidas by {
            assert(s1.contains(s2[i]));
            let h = choose|h: int| 0 <= h < s1.len() && s1[h] == s2[i];
            assert(s1[h].activo);
        }
    }
    if m.tiene_el_maximo(s1) && !supera_a_todos(s1, m.pepitas_obtenidas as int, m.id as int) {
        let j = choose|j: int|
            0 <= j < s1.len() && s1[j].activo && #[trigger] s1[j].id_minero_sender == m.id
                && informe_no_supera(
                m.pepitas_obtenidas as int,
                m.id as int,
                s1[j].pepitas as int,
                m.id as int,
            ) && supera_a_todos(s1, s1[j].pepitas as int, m.id as int);
        assert(s2.contains(s1[j]));
        let h = choose|h: int| 0 <= h < s2.len() && s2[h] == s1[j];
        assert(s2[h].id_minero_sender == m.id);
        assert(supera_a_todos(s1, s1[j].pepitas as int, m.id as int));
    }
    if es_id_destino(s1, r) {
        if !hay_mensaje_activo(s2) {
            if hay_mensaje_activo(s1) {
                let k = choose|k: int| 0 <= k < s1.len() && #[trigger] s1[k].activo;
                assert(s2.contains(s1[k]));
                let h = choose|h: int| 0 <= h < s2.len() && s2[h] == s1[k];
                assert(s2[h].activo);
            }
        } else {
            if !hay_mensaje_activo(s1) {
                let k = choose|k: int| 0 <= k < s2.len() && #[trigger] s2[k].activo;
                assert(s1.contains(s2[k]));
                let h = choose|h: int| 0 <= h < s1.len() && s1[h] == s2[k];
                assert(s1[h].activo);
            }
            let j = choose|j: int|
                0 <= j < s1.len() && s1[j].activo && #[trigger] s1[j].id_minero_sender == r && supera_a_todos(
                    s1,
                    s1[j].pepitas as int,
                    r as int,
                );
            assert(s2.contains(s1[j]));
            let h = choose|h: int| 0 <= h < s2.len() && s2[h] == s1[j];
            assert(s2[h].id_minero_sender == r);
            assert(supera_a_todos(s1, s1[j].pepitas as int, r as int));
        }
    }
}

/// Las decisiones de un minero no dependen del orden en que le llegan los
/// mensajes: con los mismos mensajes (contando repeticiones) decide lo mismo
/// sobre entregar, recibir, el destino, los mínimos repetidos y cuántos
/// mineros quedan activos.
pub proof fn ley_orden_de_llegada(m: Minero, s1: Seq<Mensaje>, s2: Seq<Mensaje>, r: i32)
    requires
        s1.to_multiset() == s2.to_multiset(),
    ensures
        m.debe_entregar(s1) == m.debe_entregar(s2),
        m.tiene_el_maximo(s1) == m.tiene_el_maximo(s2),
        es_id_destino(s1, r) == es_id_destino(s2, r),
        multiples_minimos(s1) == multiples_minimos(s2),
        m.mineros_activos(s1) == m.mineros_activos(s2),
{
    broadcast use vstd::seq_lib::group_to_multiset_ensures;

    assert forall|k: int| 0 <= k < s1.len() implies s2.contains(#[trigger] s1[k]) by {
        assert(s1.contains(s1[k]));
        assert(s1.to_multiset().count(s1[k]) > 0);
    }
    assert forall|k: int| 0 <= k < s2.len() implies s1.contains(#[trigger] s2[k]) by {
        assert(s2.contains(s2[k]));
        assert(s2.to_multiset().count(s2[k]) > 0);
    }
    lema_decisiones_con_los_mismos_mensajes(m, s1, s2, r);
    lema_decisiones_con_los_mismos_mensajes(m, s2, s1, r);
    lema_cuenta_permutacion(s1, s2, |x: Mensaje| x.activo);
    lema_minimos_con_los_mismos_mensajes(s1, s2);
    lema_minimos_con_los_mismos_mensajes(s2, s1);
}

/// Con los mismos mensajes, si en una lista el mínimo activo está repetido
/// también lo está en la otra.
proof fn lema_minimos_con_los_mismos_mensajes(s1: Seq<Mensaje>, s2: Seq<Mensaje>)
    requires
        s1.to_multiset() == s2.to_multiset(),
        incluidos(s2, s1),
        forall|p: int| #[trigger] es_cota_inferior_activa(s1, p) ==> es_cota_inferior_activa(s2, p),
    ensures
        multiples_minimos(s1) ==> multiples_minimos(s2),
{
    if multiples_minimos(s1) {
        let (i, j) = choose|i: int, j: int|
            #![trigger s1[i], s1[j]]
            0 <= i < j < s1.len() && s1[i].activo && s1[j].activo && s1[i].pepitas == s1[j].pepitas
                && es_cota_inferior_activa(s1, s1[i].pepitas as int);
        let v = s1[i].pepitas as int;
        lema_cuenta_dos(s1, v);
        lema_cuenta_permutacion(s1, s2, |x: Mensaje| x.activo && x.pepitas == v);
        assert(cuenta_informes(s2, v) == cuenta_informes(s1, v));
        lema_cuenta_dos(s2, v);
        let (a, b) = choose|a: int, b: int|
            #![trigger s2[a], s2[b]]
            0 <= a < b < s2.len() && s2[a].activo && s2[b].activo && s2[a].pepitas == v
                && s2[b].pepitas == v;
        assert(es_cota_inferior_activa(s2, v));
        assert(es_cota_inferior_activa(s2, s2[a].pepitas as int));
    }
}


/// `m` es el informe del minero `mi`: su id, si está activo y lo que obtuvo.
pub open spec fn es_informe_de(m: Mensaje, mi: Minero) -> bool {
    &&& m.id_minero_sender == mi.id
    &&& m.activo == mi.activo
    &&& m.pepitas == mi.pepitas_obtenidas
}

/// `s` son los informes de todos los mineros salvo el `k`-ésimo, uno por
/// minero.
pub open spec fn son_los_informes_de_los_demas(mineros: Seq<Minero>, k: int, s: Seq<Mensaje>) -> bool {
    &&& forall|i: int|
        #![trigger s[i]]
        0 <= i < s.len() ==> exists|j: int|
            0 <= j < mineros.len() && j != k && #[trigger] es_informe_de(s[i], mineros[j])
    &&& forall|j: int|
        #![trigger mineros[j]]
        0 <= j < mineros.len() && j != k ==> exists|i: int|
            0 <= i < s.len() && #[trigger] es_informe_de(s[i], mineros[j])
    &&& forall|i1: int, i2: int|
        0 <= i1 < s.len() && 0 <= i2 < s.len() && i1 != i2 ==> #[trigger] s[i1].id_minero_sender
            != #[trigger] s[i2].id_minero_sender
}

/// El minero elegido como destino espera la entrega: en una ronda con dos o
/// más mineros activos de ids distintos, donde cada uno recibió los informes
/// de todos los demás, si el minero `x` decide entregar, el destino que
/// calcula es el id de otro minero que decide recibir.
#[verifier::spinoff_prover]
#[verifier::rlimit(40)]
pub proof fn ley_destino_espera_la_entrega(
    mineros: Seq<Minero>,
    vistas: Seq<Seq<Mensaje>>,
    x: int,
    d: i32,
)
    requires
        mineros.len() >= 2,
        vistas.len() == mineros.len(),
        0 <= x < mineros.len(),
        forall|i: int, j: int|
            0 <= i < mineros.len() && 0 <= j < mineros.len() && i != j ==> #[trigger] mineros[i].id
                != #[trigger] mineros[j].id,
        forall|k: int| 0 <= k < mineros.len() ==> #[trigger] mineros[k].activo,
        forall|k: int|
            0 <= k < mineros.len() ==> son_los_informes_de_los_demas(mineros, k, #[trigger] vistas[k]),
        mineros[x].debe_entregar(vistas[x]),
        es_id_destino(vistas[x], d),
    ensures
        exists|y: int|
            0 <= y < mineros.len() && y != x && #[trigger] mineros[y].id == d
                && mineros[y].debe_recibir(vistas[y]),
{
    let sx = vistas[x];
    let mx = mineros[x];
    assert(son_los_informes_de_los_demas(mineros, x, sx));
    assert(hay_mensaje_activo(sx));
    let j = choose|j: int|
        0 <= j < sx.len() && sx[j].activo && #[trigger] sx[j].id_minero_sender == d
            && supera_a_todos(sx, sx[j].pepitas as int, d as int);
    let y = choose|y: int| 0 <= y < mineros.len() && y != x && #[trigger] es_informe_de(sx[j], mineros[y]);
    let my = mineros[y];
    let sy = vistas[y];
    assert(son_los_informes_de_los_demas(mineros, y, sy));
    assert(my.id != mx.id);
    // Quien entrega obtuvo menos que el elegido.
    assert(sx[j].id_minero_sender != mx.id);
    assert(my.pepitas_obtenidas > mx.pepitas_obtenidas);
    // El elegido supera a todos los informes activos que recibió.
    assert forall|k: int| #![trigger sy[k]] 0 <= k < sy.len() && sy[k].activo implies informe_no_supera(
        sy[k].pepitas as int,
        sy[k].id_minero_sender as int,
        my.pepitas_obtenidas as int,
        my.id as int,
    ) by {
        let z = choose|z: int| 0 <= z < mineros.len() && z != y && #[trigger] es_informe_de(sy[k], mineros[z]);
        if z != x {
            let i = choose|i: int| 0 <= i < sx.len() && #[trigger] es_informe_de(sx[i], mineros[z]);
            assert(sx[i].activo);
        }
    }
    assert(supera_a_todos(sy, my.pepitas_obtenidas as int, my.id as int));
    // El mínimo de los activos que recibió el elegido es el de quien entrega, y no se repite.
    if multiples_minimos(sy) {
        let (a, b) = choose|a: int, b: int|
            #![trigger sy[a], sy[b]]
            0 <= a < b < sy.len() && sy[a].activo && sy[b].activo && sy[a].pepitas == sy[b].pepitas
                && es_cota_inferior_activa(sy, sy[a].pepitas as int);
        let ix = choose|i: int| 0 <= i < sy.len() && #[trigger] es_informe_de(sy[i], mineros[x]);
        assert(sy[ix].activo);
        assert(sy[ix].pepitas >= sy[a].pepitas);
        assert(sy[a].id_minero_sender != sy[b].id_minero_sender);
        let c = if sy[a].id_minero_sender != mx.id { a } else { b };
        assert(sy[c].id_minero_sender != mx.id);
        let z = choose|z: int| 0 <= z < mineros.len() && z != y && #[trigger] es_informe_de(sy[c], mineros[z]);
        assert(z != x);
        let i = choose|i: int| 0 <= i < sx.len() && #[trigger] es_informe_de(sx[i], mineros[z]);
        assert(sx[i].activo);
        assert(sx[i].pepitas > mx.pepitas_obtenidas);
        assert(false);
    }
    assert(my.activo);
}

/// Pepitas informadas por los mensajes activos de `s`, en orden.
pub open spec fn pepitas_activas(s: Seq<Mensaje>) -> Seq<i32>
    decreases s.len(),
{
    if s.len() == 0 {
        Seq::empty()
    } else if s.last().activo {
        pepitas_activas(s.drop_last()).push(s.last().pepitas)
    } else {
        pepitas_activas(s.drop_last())
    }
}

/// En un multiconjunto de pepitas, el mínimo aparece dos o más veces.
pub open spec fn minimo_repetido(ms: Multiset<i32>) -> bool {
    exists|v: i32| #[trigger] ms.count(v) >= 2 && forall|p: i32| #[trigger] ms.count(p) > 0 ==> p >= v
}

/// Cuántas veces aparece `v` entre las pepitas activas es la cuenta de
/// informes activos de `v`.
proof fn lema_cuenta_es_multiplicidad(s: Seq<Mensaje>, v: i32)
    ensures
        pepitas_activas(s).to_multiset().count(v) == cuenta_informes(s, v as int),
    decreases s.len(),
{
    broadcast use vstd::seq_lib::group_to_multiset_ensures;

    if s.len() > 0 {
        lema_cuenta_es_multiplicidad(s.drop_last(), v);
    } else {
        assert(pepitas_activas(s).to_multiset() =~= Multiset::empty());
    }
}

/// Que el mínimo activo esté repetido depende solo del multiconjunto de las
/// pepitas activas.
proof fn lema_minimos_por_multiplicidad(s: Seq<Mensaje>)
    ensures
        multiples_minimos(s) == minimo_repetido(pepitas_activas(s).to_multiset()),
{
    let ms = pepitas_activas(s).to_multiset();
    if multiples_minimos(s) {
        let (i, j) = choose|i: int, j: int|
            #![trigger s[i], s[j]]
            0 <= i < j < s.len() && s[i].activo && s[j].activo && s[i].pepitas == s[j].pepitas
                && es_cota_inferior_activa(s, s[i].pepitas as int);
        let v = s[i].pepitas;
        lema_cuenta_dos(s, v as int);
        lema_cuenta_es_multiplicidad(s, v);
        assert forall|p: i32| #[trigger] ms.count(p) > 0 implies p >= v by {
            lema_cuenta_es_multiplicidad(s, p);
            lema_cuenta_positiva(s, p as int);
            let k = choose|k: int| 0 <= k < s.len() && #[trigger] s[k].activo && s[k].pepitas == p;
            assert(s[k].activo);
        }
        assert(ms.count(v) >= 2);
    }
    if minimo_repetido(ms) {
        let v = choose|v: i32| #[trigger] ms.count(v) >= 2 && forall|p: i32| #[trigger] ms.count(p) > 0 ==> p >= v;
        lema_cuenta_es_multiplicidad(s, v);
        lema_cuenta_dos(s, v as int);
        let (i, j) = choose|i: int, j: int|
            #![trigger s[i], s[j]]
            0 <= i < j < s.len() && s[i].activo && s[j].activo && s[i].pepitas == v
                && s[j].pepitas == v;
        assert forall|k: int| 0 <= k < s.len() && #[trigger] s[k].activo implies s[k].pepitas >= v by {
            lema_cuenta_positiva(s, s[k].pepitas as int);
            lema_cuenta_es_multiplicidad(s, s[k].pepitas);
            assert(ms.count(s[k].pepitas) > 0);
        }
        assert(es_cota_inferior_activa(s, s[i].pepitas as int));
    }
}

/// La decisión de mínimos repetidos depende solo de las pepitas de los
/// mineros activos: con el mismo multiconjunto de pepitas activas, sin
/// importar orden, ids, tipo de mensaje ni mensajes inactivos, da lo mismo.
pub proof fn ley_minimos_solo_de_activos(s1: Seq<Mensaje>, s2: Seq<Mensaje>)
    requires
        pepitas_activas(s1).to_multiset() == pepitas_activas(s2).to_multiset(),
    ensures
        multiples_minimos(s1) == multiples_minimos(s2),
{
    lema_minimos_por_multiplicidad(s1);
    lema_minimos_por_multiplicidad(s2);
}

/// Empate de dos: con dos mineros activos de ids distintos que obtuvieron lo
/// mismo y recibieron solo el informe activo del otro, el de mayor id decide
/// recibir y ninguno decide entregar; la transferencia que espera no llega.
pub proof fn ley_empate_de_dos_sin_entrega(a: Minero, b: Minero, sa: Seq<Mensaje>, sb: Seq<Mensaje>)
    requires
        a.activo,
        b.activo,
        a.id < b.id,
        a.pepitas_obtenidas == b.pepitas_obtenidas,
        sa.len() == 1,
        sa[0].activo && sa[0].id_minero_sender == b.id && sa[0].pepitas == b.pepitas_obtenidas,
        sb.len() == 1,
        sb[0].activo && sb[0].id_minero_sender == a.id && sb[0].pepitas == a.pepitas_obtenidas,
    ensures
        b.debe_recibir(sb),
        !a.debe_recibir(sa),
        !a.debe_entregar(sa),
        !b.debe_entregar(sb),
{
    assert(supera_a_todos(sb, b.pepitas_obtenidas as int, b.id as int));
    assert(!multiples_minimos(sb));
    assert(!supera_a_todos(sa, a.pepitas_obtenidas as int, a.id as int));
    assert(sa[0].activo && sa[0].id_minero_sender != a.id);
    assert(sb[0].activo && sb[0].id_minero_sender != b.id);
}

/// Los mensajes de mineros activos de `s`, en orden.
pub open spec fn activos(s: Seq<Mensaje>) -> Seq<Mensaje> {
    s.filter(|m: Mensaje| m.activo)
}

/// Ningún mensaje activo: la cuenta de activos es cero.
proof fn lema_sin_activos(s: Seq<Mensaje>)
    ensures
        (cantidad_activos(s) == 0) == (forall|k: int| 0 <= k < s.len() ==> !#[trigger] s[k].activo),
    decreases s.len(),
{
    if s.len() > 0 {
        let t = s.drop_last();
        lema_sin_activos(t);
        if cantidad_activos(s) == 0 {
            assert forall|k: int| 0 <= k < s.len() implies !#[trigger] s[k].activo by {
                if k < t.len() {
                    assert(t[k] == s[k]);
                }
            }
        }
        if forall|k: int| 0 <= k < s.len() ==> !#[trigger] s[k].activo {
            assert forall|k: int| 0 <= k < t.len() implies !#[trigger] t[k].activo by {
                assert(t[k] == s[k]);
            }
            assert(!s[s.len() - 1].activo);
        }
    }
}

/// Exactamente un mensaje activo: la cuenta de activos es uno.
proof fn lema_un_activo(s: Seq<Mensaje>)
    ensures
        (cantidad_activos(s) == 1) == (exists|j: int|
            0 <= j < s.len() && #[trigger] s[j].activo && forall|k: int|
                0 <= k < s.len() && #[trigger] s[k].activo ==> k == j),
    decreases s.len(),
{
    if s.len() > 0 {
        let t = s.drop_last();
        let u = s.len() - 1;
        lema_un_activo(t);
        lema_sin_activos(t);
        if cantidad_activos(s) == 1 {
            if s[u].activo {
                assert forall|k: int| 0 <= k < s.len() && #[trigger] s[k].activo implies k == u by {
                    if k < u {
                        assert(t[k] == s[k]);
                    }
                }
            } else {
                let j = choose|j: int|
                    0 <= j < t.len() && #[trigger] t[j].activo && forall|k: int|
                        0 <= k < t.len() && #[trigger] t[k].activo ==> k == j;
                assert(s[j] == t[j]);
                assert forall|k: int| 0 <= k < s.len() && #[trigger] s[k].activo implies k == j by {
                    if k < u {
                        assert(t[k] == s[k]);
                    }
                }
            }
        }
        if exists|j: int|
            0 <= j < s.len() && #[trigger] s[j].activo && forall|k: int|
                0 <= k < s.len() && #[trigger] s[k].activo ==> k == j {
            let j = choose|j: int|
                0 <= j < s.len() && #[trigger] s[j].activo && forall|k: int|
                    0 <= k < s.len() && #[trigger] s[k].activo ==> k == j;
            if j == u {
                assert forall|k: int| 0 <= k < t.len() implies !#[trigger] t[k].activo by {
                    assert(t[k] == s[k]);
                }
            } else {
                assert(!s[u].activo);
                assert(t[j] == s[j]);
                assert forall|k: int| 0 <= k < t.len() && #[trigger] t[k].activo implies k == j by {
                    assert(t[k] == s[k]);
                }
            }
        }
    }
}

/// Queda un solo minero exactamente cuando el minero está activo y ningún
/// mensaje lo está, o el minero está inactivo y un único mensaje está activo.
/// Así, un minero inactivo con dos o más mensajes activos sigue jugando.
pub proof fn ley_queda_un_minero(m: Minero, s: Seq<Mensaje>)
    ensures
        (m.mineros_activos(s) == 1) == ({
            ||| m.activo && forall|k: int| 0 <= k < s.len() ==> !#[trigger] s[k].activo
            ||| !m.activo && exists|j: int|
                0 <= j < s.len() && #[trigger] s[j].activo && forall|k: int|
                    0 <= k < s.len() && #[trigger] s[k].activo ==> k == j
        }),
{
    lema_sin_activos(s);
    lema_un_activo(s);
}

/// Las pepitas activas son las de los mensajes activos, en orden.
proof fn lema_pepitas_de_los_activos(s: Seq<Mensaje>)
    ensures
        pepitas_activas(s) == activos(s).map_values(|m: Mensaje| m.pepitas),
        cantidad_activos(s) == activos(s).len(),
    decreases s.len(),
{
    if s.len() > 0 {
        let t = s.drop_last();
        lema_pepitas_de_los_activos(t);
        assert(s == t.push(s.last()));
        t.lemma_filter_push(s.last(), |m: Mensaje| m.activo);
        assert(pepitas_activas(s) =~= activos(s).map_values(|m: Mensaje| m.pepitas));
    } else {
        assert(activos(s) =~= Seq::<Mensaje>::empty()) by {
            s.lemma_filter_len(|m: Mensaje| m.activo);
        }
        assert(pepitas_activas(s) =~= activos(s).map_values(|m: Mensaje| m.pepitas));
    }
}

/// Todo mensaje activo de `s1` está también en `s2`.
pub open spec fn activos_incluidos(s1: Seq<Mensaje>, s2: Seq<Mensaje>) -> bool {
    forall|k: int| 0 <= k < s1.len() && s1[k].activo ==> s2.contains(#[trigger] s1[k])
}

/// Con los mismos mensajes activos, lo que una lista decide implica lo que
/// decide la otra.
proof fn lema_decisiones_con_los_mismos_activos(m: Minero, s1: Seq<Mensaje>, s2: Seq<Mensaje>, r: i32)
    requires
        activos_incluidos(s1, s2),
        activos_incluidos(s2, s1),
    ensures
        m.debe_entregar(s1) ==> m.debe_entregar(s2),
        m.tiene_el_maximo(s1) ==> m.tiene_el_maximo(s2),
        es_id_destino(s1, r) ==> es_id_destino(s2, r),
{
    assert forall|p: int, id: int| #[trigger] supera_a_todos(s1, p, id) implies supera_a_todos(
        s2,
        p,
        id,
    ) by {
        assert forall|k: int|
            #![trigger s2[k]]
            0 <= k < s2.len() && s2[k].activo implies informe_no_supera(
            s2[k].pepitas as int,
            s2[k].id_minero_sender as int,
            p,
            id,
        ) by {
            assert(s1.contains(s2[k]));
            let j = choose|j: int| 0 <= j < s1.len() && s1[j] == s2[k];
            assert(s1[j] == s2[k]);
        }
    }
    if m.debe_entregar(s1) {
        let k = choose|k: int| 0 <= k < s1.len() && #[trigger] s1[k].activo;
        assert(s2.contains(s1[k]));
        let j = choose|j: int| 0 <= j < s2.len() && s2[j] == s1[k];
        assert(s2[j].activo);
        assert forall|i: int|
            #![trigger s2[i]]
            0 <= i < s2.len() && s2[i].activo && s2[i].id_minero_sender != m.id implies s2[i].pepitas
            > m.pepitas_obtenidas by {
            assert(s1.contains(s2[i]));
            let h = choose|h: int| 0 <= h < s1.len() && s1[h] == s2[i];
            assert(s1[h].activo);
        }
    }
    if m.tiene_el_maximo(s1) && !supera_a_todos(s1, m.pepitas_obtenidas as int, m.id as int) {
        let j = choose|j: int|
            0 <= j < s1.len() && s1[j].activo && #[trigger] s1[j].id_minero_sender == m.id
                && informe_no_supera(
                m.pepitas_obtenidas as int,
                m.id as int,
                s1[j].pepitas as int,
                m.id as int,
            ) && supera_a_todos(s1, s1[j].pepitas as int, m.id as int);
        assert(s2.contains(s1[j]));
        let h = choose|h: int| 0 <= h < s2.len() && s2[h] == s1[j];
        assert(s2[h].id_minero_sender == m.id);
        assert(supera_a_todos(s1, s1[j].pepitas as int, m.id as int));
    }
    if es_id_destino(s1, r) {
        if !hay_mensaje_activo(s2) {
            if hay_mensaje_activo(s1) {
                let k = choose|k: int| 0 <= k < s1.len() && #[trigger] s1[k].activo;
                assert(s2.contains(s1[k]));
                let h = choose|h: int| 0 <= h < s2.len() && s2[h] == s1[k];
                assert(s2[h].activo);
            }
        } else {
            if !hay_mensaje_activo(s1) {
                let k = choose|k: int| 0 <= k < s2.len() && #[trigger] s2[k].activo;
                assert(s1.contains(s2[k]));
                let h = choose|h: int| 0 <= h < s1.len() && s1[h] == s2[k];
                assert(s1[h].activo);
            }
            let j = choose|j: int|
                0 <= j < s1.len() && s1[j].activo && #[trigger] s1[j].id_minero_sender == r
                    && supera_a_todos(s1, s1[j].pepitas as int, r as int);
            assert(s2.contains(s1[j]));
            let h = choose|h: int| 0 <= h < s2.len() && s2[h] == s1[j];
            assert(s2[h].id_minero_sender == r);
            assert(supera_a_todos(s1, s1[j].pepitas as int, r as int));
        }
    }
}

/// Los mensajes activos de una lista están en la otra si ambas tienen los
/// mismos activos.
proof fn lema_activos_incluidos(s1: Seq<Mensaje>, s2: Seq<Mensaje>)
    requires
        activos(s1) == activos(s2),
    ensures
        activos_incluidos(s1, s2),
{
    assert forall|k: int| 0 <= k < s1.len() && s1[k].activo implies s2.contains(#[trigger] s1[k]) by {
        s1.lemma_filter_contains(|m: Mensaje| m.activo, k);
        s2.lemma_filter_contains_rev(|m: Mensaje| m.activo, s1[k]);
    }
}

/// Los mensajes de mineros inactivos no cuentan: dos listas con los mismos
/// mensajes activos en el mismo orden (agregando, quitando o cambiando
/// mensajes inactivos) dan la misma decisión de entregar, de recibir, el
/// mismo destino, los mismos mínimos repetidos y la misma cantidad de
/// mineros activos.
pub proof fn ley_inactivos_no_cuentan(m: Minero, s1: Seq<Mensaje>, s2: Seq<Mensaje>, r: i32)
    requires
        activos(s1) == activos(s2),
    ensures
        m.debe_entregar(s1) == m.debe_entregar(s2),
        m.debe_recibir(s1) == m.debe_recibir(s2),
        es_id_destino(s1, r) == es_id_destino(s2, r),
        multiples_minimos(s1) == multiples_minimos(s2),
        m.mineros_activos(s1) == m.mineros_activos(s2),
{
    lema_activos_incluidos(s1, s2);
    lema_activos_incluidos(s2, s1);
    lema_decisiones_con_los_mismos_activos(m, s1, s2, r);
    lema_decisiones_con_los_mismos_activos(m, s2, s1, r);
    lema_pepitas_de_los_activos(s1);
    lema_pepitas_de_los_activos(s2);
    ley_minimos_solo_de_activos(s1, s2);
}

} // verus!
