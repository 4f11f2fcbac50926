use vstd::prelude::*;
use crate::minero_net::{Mensaje, TipoMensaje};
use crate::mapa::Porcion;
use std::collections::BTreeMap;
use vstd::std_specs::iter::IteratorSpec;
use vstd::std_specs::cmp::OrdSpec;

verus! {

/// Orden lexicográfico de los informes `(pepitas, id)`: `(p1, i1)` no supera a `(p2, i2)`.
pub open spec fn informe_no_supera(p1: int, i1: int, p2: int, i2: int) -> bool {
    p1 < p2 || (p1 == p2 && i1 <= i2)
}

/// Ningún mensaje activo de `s` supera al informe `(p, id)`; los mensajes de
/// mineros inactivos se omiten.
pub open spec fn supera_a_todos(s: Seq<Mensaje>, p: int, id: int) -> bool {
    forall|k: int|
        #![trigger s[k]]
        0 <= k < s.len() && s[k].activo ==> informe_no_supera(
            s[k].pepitas as int,
            s[k].id_minero_sender as int,
            p,
            id,
        )
}

/// `r` es el id del destinatario de una entrega: el del mensaje activo cuyo
/// informe `(pepitas, id)` es el mayor entre los activos de `s`; 0 si no hay
/// mensajes activos.
pub open spec fn es_id_destino(s: Seq<Mensaje>, r: i32) -> bool {
    if !hay_mensaje_activo(s) {
        r == 0
    } else {
        exists|j: int|
            0 <= j < s.len() && s[j].activo && #[trigger] s[j].id_minero_sender == r
                && supera_a_todos(s, s[j].pepitas as int, r as int)
    }
}

/// Id del minero al que hay que entregar las pepitas: entre los mineros
/// activos, el que más pepitas informó y, entre los empatados, el de mayor id.
/// Los mensajes de mineros inactivos se omiten.
pub fn obtener_id_minero_destino(mensajes: &Vec<Mensaje>) -> (id: i32)
    ensures
        es_id_destino(mensajes@, id),
{
    let mut id_minero_maximo: i32 = 0;
    let mut maximo_obtenido: i32 = 0;
    let mut hay_activo: bool = false;
    let ghost mut testigo: int = 0;
    let n = mensajes.len();
    let mut i: usize = 0;
    while i < n
        invariant
            n == mensajes@.len(),
            0 <= i <= n,
            hay_activo == (exists|k: int| 0 <= k < i && #[trigger] mensajes@[k].activo),
            !hay_activo ==> id_minero_maximo == 0,
            hay_activo ==> 0 <= testigo < i && mensajes@[testigo].activo
                && mensajes@[testigo].pepitas == maximo_obtenido
                && mensajes@[testigo].id_minero_sender == id_minero_maximo,
            forall|k: int|
                #![trigger mensajes@[k]]
                0 <= k < i && mensajes@[k].activo ==> informe_no_supera(
                    mensajes@[k].pepitas as int,
                    mensajes@[k].id_minero_sender as int,
                    maximo_obtenido as int,
                    id_minero_maximo as int,
                ),
        decreases n - i,
    {
        let mensaje = mensajes[i];
        if mensaje.activo {
            if !hay_activo || mensaje.pepitas > maximo_obtenido {
                maximo_obtenido = mensaje.pepitas;
                id_minero_maximo = mensaje.id_minero_sender;
                hay_activo = true;
                proof {
                    testigo = i as int;
                }
            } else if mensaje.pepitas == maximo_obtenido && mensaje.id_minero_sender
                > id_minero_maximo {
                id_minero_maximo = mensaje.id_minero_sender;
                proof {
                    testigo = i as int;
                }
            }
        }
        i = i + 1;
    }
    proof {
        if hay_activo {
            assert(mensajes@[testigo].id_minero_sender == id_minero_maximo);
        }
    }
    id_minero_maximo
}

/// Algún mensaje de `s` proviene de un minero activo.
pub open spec fn hay_mensaje_activo(s: Seq<Mensaje>) -> bool {
    exists|k: int| 0 <= k < s.len() && #[trigger] s[k].activo
}

/// Cantidad de mensajes de `s` que cumplen `p`.
pub open spec fn cuenta_si(s: Seq<Mensaje>, p: spec_fn(Mensaje) -> bool) -> nat
    decreases s.len(),
{
    if s.len() == 0 {
        0
    } else {
        cuenta_si(s.drop_last(), p) + if p(s.last()) {
            1nat
        } else {
            0nat
        }
    }
}

/// Cantidad de mensajes activos de `s`.
pub open spec fn cantidad_activos(s: Seq<Mensaje>) -> nat {
    cuenta_si(s, |m: Mensaje| m.activo)
}

/// Nunca hay más mensajes activos que mensajes.
proof fn lema_cantidad_acotada(s: Seq<Mensaje>)
    ensures
        cantidad_activos(s) <= s.len(),
    decreases s.len(),
{
    if s.len() > 0 {
        lema_cantidad_acotada(s.drop_last());
    }
}

/// Cantidad de mensajes activos de `s` que informan `v` pepitas.
pub open spec fn cuenta_informes(s: Seq<Mensaje>, v: int) -> nat {
    cuenta_si(s, |m: Mensaje| m.activo && m.pepitas == v)
}

/// Ningún mensaje activo de `s` informa menos de `p` pepitas.
pub open spec fn es_cota_inferior_activa(s: Seq<Mensaje>, p: int) -> bool {
    forall|k: int| 0 <= k < s.len() && #[trigger] s[k].activo ==> s[k].pepitas >= p
}

/// Dos o más mensajes activos distintos informan el mínimo de pepitas
/// entre los mensajes activos.
pub open spec fn multiples_minimos(s: Seq<Mensaje>) -> bool {
    exists|i: int, j: int|
        #![trigger s[i], s[j]]
        0 <= i < j < s.len() && s[i].activo && s[j].activo && s[i].pepitas == s[j].pepitas
            && es_cota_inferior_activa(s, s[i].pepitas as int)
}

/// Nunca hay más informes de un valor que mensajes.
proof fn lema_cuenta_acotada(s: Seq<Mensaje>, v: int)
    ensures
        cuenta_informes(s, v) <= s.len(),
    decreases s.len(),
{
    if s.len() > 0 {
        lema_cuenta_acotada(s.drop_last(), v);
    }
}

/// Algún mensaje activo informa `v` si y solo si la cuenta de `v` es positiva.
pub proof fn lema_cuenta_positiva(s: Seq<Mensaje>, v: int)
    ensures
        (cuenta_informes(s, v) > 0) == (exists|k: int|
            0 <= k < s.len() && #[trigger] s[k].activo && s[k].pepitas == v),
    decreases s.len(),
{
    if s.len() > 0 {
        let t = s.drop_last();
        lema_cuenta_positiva(t, v);
        if exists|k: int| 0 <= k < t.len() && #[trigger] t[k].activo && t[k].pepitas == v {
            let k = choose|k: int| 0 <= k < t.len() && #[trigger] t[k].activo && t[k].pepitas == v;
            assert(s[k] == t[k]);
        }
        if exists|k: int| 0 <= k < s.len() && #[trigger] s[k].activo && s[k].pepitas == v {
            let k = choose|k: int| 0 <= k < s.len() && #[trigger] s[k].activo && s[k].pepitas == v;
            if k < t.len() {
                assert(t[k] == s[k]);
            }
        }
    }
}

/// Dos mensajes activos distintos informan `v` si y solo si la cuenta de `v`
/// llega a dos.
pub proof fn lema_cuenta_dos(s: Seq<Mensaje>, v: int)
    ensures
        (cuenta_informes(s, v) >= 2) == (exists|i: int, j: int|
            #![trigger s[i], s[j]]
            0 <= i < j < s.len() && s[i].activo && s[j].activo && s[i].pepitas == v
                && s[j].pepitas == v),
    decreases s.len(),
{
    if s.len() > 0 {
        let t = s.drop_last();
        let u = s.len() - 1;
        lema_cuenta_dos(t, v);
        lema_cuenta_positiva(t, v);
        if cuenta_informes(s, v) >= 2 {
            if s[u].activo && s[u].pepitas == v {
                let k = choose|k: int| 0 <= k < t.len() && #[trigger] t[k].activo && t[k].pepitas == v;
                assert(s[k] == t[k]);
            } else {
                let (i, j) = choose|i: int, j: int|
                    #![trigger t[i], t[j]]
                    0 <= i < j < t.len() && t[i].activo && t[j].activo && t[i].pepitas == v
                        && t[j].pepitas == v;
                assert(s[i] == t[i] && s[j] == t[j]);
            }
        }
        if exists|i: int, j: int|
            #![trigger s[i], s[j]]
            0 <= i < j < s.len() && s[i].activo && s[j].activo && s[i].pepitas == v
                && s[j].pepitas == v {
            let (i, j) = choose|i: int, j: int|
                #![trigger s[i], s[j]]
                0 <= i < j < s.len() && s[i].activo && s[j].activo && s[i].pepitas == v
                    && s[j].pepitas == v;
            assert(t[i] == s[i]);
            if j < u {
                assert(t[j] == s[j]);
            }
        }
    }
}

/// Verdadero cuando, entre los mensajes activos, el mínimo de pepitas
/// informadas aparece en dos o más mensajes.
pub fn hay_multiples_minimos(mensajes: &Vec<Mensaje>) -> (r: bool)
    ensures
        r == multiples_minimos(mensajes@),
{
    let mut map: BTreeMap<i32, usize> = BTreeMap::new();
    let n = mensajes.len();
    let mut i: usize = 0;
    while i < n
        invariant
            n == mensajes@.len(),
            0 <= i <= n,
            forall|v: i32|
                #[trigger] map@.contains_key(v) == (cuenta_informes(
                    mensajes@.take(i as int),
                    v as int,
                ) > 0),
            forall|v: i32|
                #[trigger] map@.contains_key(v) ==> map@[v] == cuenta_informes(
                    mensajes@.take(i as int),
                    v as int,
                ),
        decreases n - i,
    {
        let mensaje = mensajes[i];
        let ghost previo = mensajes@.take(i as int);
        proof {
            assert(mensajes@.take(i + 1).drop_last() =~= previo);
            lema_cuenta_acotada(previo, mensaje.pepitas as int);
        }
        if mensaje.activo {
            if !map.contains_key(&mensaje.pepitas) {
                map.insert(mensaje.pepitas, 1);
            } else {
                let contador: usize = *map.get(&mensaje.pepitas).unwrap();
                map.insert(mensaje.pepitas, contador + 1);
            }
        }
        i = i + 1;
    }
    proof {
        assert(mensajes@.take(n as int) =~= mensajes@);
    }
    if map.len() == 0 {
        proof {
            if multiples_minimos(mensajes@) {
                let (a, b) = choose|a: int, b: int|
                    #![trigger mensajes@[a], mensajes@[b]]
                    0 <= a < b < mensajes@.len() && mensajes@[a].activo && mensajes@[b].activo
                        && mensajes@[a].pepitas == mensajes@[b].pepitas
                        && es_cota_inferior_activa(mensajes@, mensajes@[a].pepitas as int);
                lema_cuenta_positiva(mensajes@, mensajes@[a].pepitas as int);
                assert(map@.contains_key(mensajes@[a].pepitas));
            }
        }
        return false;
    }
    let mut resultado: bool = false;
    for entrada in it: map.iter()
        invariant_except_break
            it.index() == 0,
        invariant
            it.seq().len() == map@.len(),
            map@.len() > 0,
            vstd::std_specs::btree::increasing_seq(
                it.seq().map_values(|kv: (&i32, &usize)| *kv.0),
            ),
        ensures
            exists|k: i32|
                #[trigger] map@.contains_key(k) && resultado == (map@[k] > 1) && forall|k2: i32|
                    #[trigger] map@.contains_key(k2) ==> k <= k2,
    {
        resultado = *entrada.1 > 1;
        proof {
            lema_primera_clave_minima(&map, it.seq());
        }
        break;
    }
    proof {
        let k = choose|k: i32|
            #[trigger] map@.contains_key(k) && resultado == (map@[k] > 1) && forall|k2: i32|
                #[trigger] map@.contains_key(k2) ==> k <= k2;
        lema_cuenta_dos(mensajes@, k as int);
        lema_cuenta_positiva(mensajes@, k as int);
        if multiples_minimos(mensajes@) {
            let (a, b) = choose|a: int, b: int|
                #![trigger mensajes@[a], mensajes@[b]]
                0 <= a < b < mensajes@.len() && mensajes@[a].activo && mensajes@[b].activo
                    && mensajes@[a].pepitas == mensajes@[b].pepitas
                    && es_cota_inferior_activa(mensajes@, mensajes@[a].pepitas as int);
            let p = mensajes@[a].pepitas;
            lema_cuenta_positiva(mensajes@, p as int);
            assert(map@.contains_key(p));
            let j = choose|j: int|
                0 <= j < mensajes@.len() && #[trigger] mensajes@[j].activo && mensajes@[j].pepitas
                    == k;
            assert(mensajes@[j].pepitas >= p);
            lema_cuenta_dos(mensajes@, p as int);
        }
        if resultado {
            let (a, b) = choose|a: int, b: int|
                #![trigger mensajes@[a], mensajes@[b]]
                0 <= a < b < mensajes@.len() && mensajes@[a].activo && mensajes@[b].activo
                    && mensajes@[a].pepitas == k && mensajes@[b].pepitas == k;
            assert forall|c: int|
                0 <= c < mensajes@.len() && #[trigger] mensajes@[c].activo implies mensajes@[c].pepitas
                >= k by {
                lema_cuenta_positiva(mensajes@, mensajes@[c].pepitas as int);
                assert(map@.contains_key(mensajes@[c].pepitas));
            }
            assert(es_cota_inferior_activa(mensajes@, mensajes@[a].pepitas as int));
        }
    }
    resultado
}

/// La primera entrada que recorre un `BTreeMap` tiene la menor clave.
proof fn lema_primera_clave_minima(map: &BTreeMap<i32, usize>, sq: Seq<(&i32, &usize)>)
    requires
        sq == vstd::std_specs::btree::spec_btree_map_iter(map).remaining(),
        sq.len() > 0,
        vstd::std_specs::btree::increasing_seq(sq.map_values(|kv: (&i32, &usize)| *kv.0)),
    ensures
        map@.contains_key(*sq[0].0),
        map@[*sq[0].0] == *sq[0].1,
        forall|k2: i32| #[trigger] map@.contains_key(k2) ==> *sq[0].0 <= k2,
{
    let claves = sq.map_values(|kv: (&i32, &usize)| *kv.0);
    assert forall|k2: i32| #[trigger] map@.contains_key(k2) implies *sq[0].0 <= k2 by {
        assert(sq.contains((&k2, &map@[k2])));
        let idx = choose|idx: int| 0 <= idx < sq.len() && sq[idx] == (&k2, &map@[k2]);
        if idx > 0 {
            assert(claves[0].cmp_spec(&claves[idx]) is Less);
        }
    }
}

/// Un minero de la red: su identidad y las pepitas que lleva.
pub struct Minero {
    pub nombre: String,
    pub id: i32,
    pub pepitas_obtenidas: i32,
    pub pepitas_acumuladas: i32,
    pub activo: bool,
}

impl Minero {
    /// Todo informe activo de otro minero trae estrictamente más pepitas
    /// obtenidas que las propias: este minero es el único mínimo.
    pub open spec fn es_minimo_unico(&self, s: Seq<Mensaje>) -> bool {
        forall|k: int|
            #![trigger s[k]]
            0 <= k < s.len() && s[k].activo && s[k].id_minero_sender != self.id ==> s[k].pepitas
                > self.pepitas_obtenidas
    }

    /// Decisión de entrega: el minero está activo, algún minero activo
    /// informó y él es el único que obtuvo el mínimo.
    pub open spec fn debe_entregar(&self, s: Seq<Mensaje>) -> bool {
        &&& self.activo
        &&& hay_mensaje_activo(s)
        &&& self.es_minimo_unico(s)
    }

    /// Algún informe con el id de este minero (el propio, o un mensaje activo
    /// con su id) no es superado ni por el propio informe ni por ningún mensaje
    /// activo; los mensajes de mineros inactivos se omiten.
    pub open spec fn tiene_el_maximo(&self, s: Seq<Mensaje>) -> bool {
        ||| supera_a_todos(s, self.pepitas_obtenidas as int, self.id as int)
        ||| exists|j: int|
            0 <= j < s.len() && s[j].activo && #[trigger] s[j].id_minero_sender == self.id
                && informe_no_supera(
                self.pepitas_obtenidas as int,
                self.id as int,
                s[j].pepitas as int,
                self.id as int,
            ) && supera_a_todos(s, s[j].pepitas as int, self.id as int)
    }

    /// Decisión de recepción: el minero está activo, tiene el informe mayor y
    /// el mínimo de los activos no está repetido.
    pub open spec fn debe_recibir(&self, s: Seq<Mensaje>) -> bool {
        &&& self.activo
        &&& self.tiene_el_maximo(s)
        &&& !multiples_minimos(s)
    }

    /// Cantidad de mineros activos según este minero y los mensajes recibidos.
    pub open spec fn mineros_activos(&self, s: Seq<Mensaje>) -> nat {
        (if self.activo {
            1nat
        } else {
            0nat
        }) + cantidad_activos(s)
    }

    pub fn new(nombre: String, id: i32) -> (m: Minero)
        ensures
            m.nombre@ == nombre@,
            m.id == id,
            m.pepitas_acumuladas == 0,
            m.pepitas_obtenidas == 0,
            m.activo,
    {
        Minero { nombre, id, pepitas_acumuladas: 0, pepitas_obtenidas: 0, activo: true }
    }

    pub fn get_pepitas_acumuladas(&self) -> (r: &i32)
        ensures
            *r == self.pepitas_acumuladas,
    {
        &self.pepitas_acumuladas
    }

    pub fn get_id(&self) -> (r: &i32)
        ensures
            *r == self.id,
    {
        &self.id
    }

    /// Extrae pepitas de la región: las extraídas pasan a ser las obtenidas en
    /// esta exploración y se suman a las acumuladas.
    pub fn explorar_porcion(&mut self, porcion: &mut Porcion)
        requires
            old(porcion).pepitas > 0 ==> old(self).pepitas_acumuladas + old(porcion).pepitas - 1
                <= i32::MAX,
        ensures
            old(porcion).pepitas > 0 ==> 0 <= final(self).pepitas_obtenidas < old(porcion).pepitas,
            old(porcion).pepitas <= 0 ==> final(self).pepitas_obtenidas == 0,
            final(porcion).pepitas == old(porcion).pepitas - final(self).pepitas_obtenidas,
            final(self).pepitas_acumuladas == old(self).pepitas_acumuladas
                + final(self).pepitas_obtenidas,
            final(self).id == old(self).id,
            final(self).activo == old(self).activo,
            final(self).nombre == old(self).nombre,
    {
        let extraidas = porcion.extraer();
        self.registrar_obtenidas(extraidas);
    }

    /// Registra `cantidad` pepitas recién extraídas: pasan a ser las obtenidas
    /// en esta exploración y se suman a las acumuladas.
    pub fn registrar_obtenidas(&mut self, cantidad: i32)
        requires
            i32::MIN <= old(self).pepitas_acumuladas + cantidad <= i32::MAX,
        ensures
            final(self).pepitas_obtenidas == cantidad,
            final(self).pepitas_acumuladas == old(self).pepitas_acumuladas + cantidad,
            final(self).id == old(self).id,
            final(self).activo == old(self).activo,
            final(self).nombre == old(self).nombre,
    {
        self.pepitas_obtenidas = cantidad;
        self.pepitas_acumuladas = self.pepitas_acumuladas + cantidad;
    }

    /// El informe de la ronda que este minero envía a los demás: su id, si
    /// está activo y las pepitas que obtuvo en la última exploración.
    pub fn informe(&self) -> (m: Mensaje)
        ensures
            m == (Mensaje {
                tipo_operacion: TipoMensaje::Informacion,
                id_minero_sender: self.id,
                activo: self.activo,
                pepitas: self.pepitas_obtenidas,
            }),
    {
        Mensaje {
            tipo_operacion: TipoMensaje::Informacion,
            id_minero_sender: self.id,
            activo: self.activo,
            pepitas: self.pepitas_obtenidas,
        }
    }

    /// Suma `cantidad` a las pepitas acumuladas.
    pub fn agregar_pepitas(&mut self, cantidad: i32)
        requires
            i32::MIN <= old(self).pepitas_acumuladas + cantidad <= i32::MAX,
        ensures
            final(self).pepitas_acumuladas == old(self).pepitas_acumuladas + cantidad,
            final(self).pepitas_obtenidas == old(self).pepitas_obtenidas,
            final(self).id == old(self).id,
            final(self).activo == old(self).activo,
            final(self).nombre == old(self).nombre,
    {
        self.pepitas_acumuladas = self.pepitas_acumuladas + cantidad;
    }

    /// El minero debe entregar sus pepitas acumuladas cuando está activo, hay
    /// algún otro minero activo y es el único que obtuvo el mínimo.
    pub fn tengo_entregar_pepitas(&self, mensajes: &Vec<Mensaje>) -> (r: bool)
        ensures
            r == self.debe_entregar(mensajes@),
    {
        if !self.activo {
            return false;
        }
        let mut minimo_obtenido: i32 = self.pepitas_obtenidas;
        let mut id_minero_minimo: i32 = self.id;
        let mut cant_mensajes_activos: usize = 0;
        let n = mensajes.len();
        let mut i: usize = 0;
        while i < n
            invariant
                n == mensajes@.len(),
                0 <= i <= n,
                cant_mensajes_activos <= i,
                (cant_mensajes_activos != 0) == (exists|k: int|
                    0 <= k < i && #[trigger] mensajes@[k].activo),
                minimo_obtenido <= self.pepitas_obtenidas,
                id_minero_minimo == self.id ==> minimo_obtenido == self.pepitas_obtenidas,
                (id_minero_minimo == self.id) == (forall|k: int|
                    #![trigger mensajes@[k]]
                    0 <= k < i && mensajes@[k].activo && mensajes@[k].id_minero_sender != self.id
                        ==> mensajes@[k].pepitas > self.pepitas_obtenidas),
            decreases n - i,
        {
            let mensaje = mensajes[i];
            if mensaje.activo {
                if mensaje.id_minero_sender != self.id && mensaje.pepitas <= minimo_obtenido {
                    minimo_obtenido = mensaje.pepitas;
                    id_minero_minimo = mensaje.id_minero_sender;
                }
                cant_mensajes_activos = cant_mensajes_activos + 1;
            }
            i = i + 1;
        }
        cant_mensajes_activos != 0 && id_minero_minimo == self.id
    }

    /// El minero debe recibir pepitas cuando está activo, un informe con su
    /// id es el mayor `(pepitas, id)` entre el propio y los mensajes activos (a
    /// igual cantidad gana el mayor id) y el mínimo de los activos no está
    /// repetido. Los mensajes de mineros inactivos se omiten.
    ///
    /// El propio informe no cuenta para los mínimos repetidos: con dos mineros
    /// activos que obtuvieron lo mismo, el de mayor id espera recibir y ninguno
    /// entrega (ver `leyes::ley_empate_de_dos_sin_entrega`).
    pub fn tengo_recibir_pepitas(&self, mensajes: &Vec<Mensaje>) -> (r: bool)
        ensures
            r == self.debe_recibir(mensajes@),
    {
        if !self.activo {
            return false;
        }
        let mut maximo_obtenido: i32 = self.pepitas_obtenidas;
        let mut id_minero_maximo: i32 = self.id;
        let ghost mut testigo: int = -1;
        let n = mensajes.len();
        let mut i: usize = 0;
        while i < n
            invariant
                n == mensajes@.len(),
                0 <= i <= n,
                -1 <= testigo < i,
                testigo == -1 ==> maximo_obtenido == self.pepitas_obtenidas && id_minero_maximo
                    == self.id,
                testigo >= 0 ==> mensajes@[testigo].activo && mensajes@[testigo].pepitas
                    == maximo_obtenido && mensajes@[testigo].id_minero_sender == id_minero_maximo,
                informe_no_supera(
                    self.pepitas_obtenidas as int,
                    self.id as int,
                    maximo_obtenido as int,
                    id_minero_maximo as int,
                ),
                forall|k: int|
                    #![trigger mensajes@[k]]
                    0 <= k < i && mensajes@[k].activo ==> informe_no_supera(
                        mensajes@[k].pepitas as int,
                        mensajes@[k].id_minero_sender as int,
                        maximo_obtenido as int,
                        id_minero_maximo as int,
                    ),
            decreases n - i,
        {
            let mensaje = mensajes[i];
            if mensaje.activo {
                if mensaje.pepitas > maximo_obtenido {
                    maximo_obtenido = mensaje.pepitas;
                    id_minero_maximo = mensaje.id_minero_sender;
                    proof {
                        testigo = i as int;
                    }
                } else if mensaje.pepitas == maximo_obtenido && mensaje.id_minero_sender
                    > id_minero_maximo {
                    id_minero_maximo = mensaje.id_minero_sender;
                    proof {
                        testigo = i as int;
                    }
                }
            }
            i = i + 1;
        }
        proof {
            let s = mensajes@;
            if testigo >= 0 {
                assert(s[testigo].id_minero_sender == id_minero_maximo);
            }
            if self.tiene_el_maximo(s) {
                if supera_a_todos(s, self.pepitas_obtenidas as int, self.id as int) {
                    if testigo >= 0 {
                        assert(s[testigo].id_minero_sender == id_minero_maximo);
                    }
                } else {
                    let j = choose|j: int|
                        0 <= j < s.len() && s[j].activo && #[trigger] s[j].id_minero_sender
                            == self.id && informe_no_supera(
                            self.pepitas_obtenidas as int,
                            self.id as int,
                            s[j].pepitas as int,
                            self.id as int,
                        ) && supera_a_todos(s, s[j].pepitas as int, self.id as int);
                    assert(s[j].id_minero_sender == self.id);
                    if testigo >= 0 {
                        assert(s[testigo].id_minero_sender == id_minero_maximo);
                    }
                }
            }
        }
        self.id == id_minero_maximo && !hay_multiples_minimos(mensajes)
    }

    /// Verdadero cuando, contando al propio minero y a los mensajes
    /// recibidos, queda exactamente un minero activo.
    pub fn queda_un_minero(&self, mensajes: &Vec<Mensaje>) -> (r: bool)
        ensures
            r == (self.mineros_activos(mensajes@) == 1),
    {
        let n = mensajes.len();
        let mut activos_informados: usize = 0;
        let mut i: usize = 0;
        while i < n
            invariant
                n == mensajes@.len(),
                0 <= i <= n,
                activos_informados == cantidad_activos(mensajes@.take(i as int)),
                activos_informados <= i,
            decreases n - i,
        {
            proof {
                assert(mensajes@.take(i + 1).drop_last() =~= mensajes@.take(i as int));
                lema_cantidad_acotada(mensajes@.take(i as int));
            }
            if mensajes[i].activo {
                activos_informados = activos_informados + 1;
            }
            i = i + 1;
        }
        proof {
            assert(mensajes@.take(n as int) =~= mensajes@);
        }
        if self.activo {
            activos_informados == 0
        } else {
            activos_informados == 1
        }
    }
}

} // verus!
