//! El paso de decisión de cada ronda.

use vstd::prelude::*;
use crate::minero::{Minero, es_id_destino, obtener_id_minero_destino};
use crate::minero_net::{Mensaje, TipoMensaje};

verus! {

/// Lo que un minero hace tras escuchar los informes de una ronda.
pub enum Accion {
    /// Espera el mensaje con las pepitas que otro minero le entrega.
    Recibir,
    /// Envía `mensaje` con sus pepitas acumuladas al minero `destino`.
    Entregar { destino: i32, mensaje: Mensaje },
    /// No intercambia pepitas en esta ronda.
    Seguir,
}

/// Decide la ronda de `minero` con los informes `mensajes`: recibir tiene
/// prioridad sobre entregar. Quien entrega arma el mensaje de intercambio con
/// sus pepitas acumuladas, elige el destino y queda inactivo.
pub fn decidir_ronda(minero: &mut Minero, mensajes: &Vec<Mensaje>) -> (accion: Accion)
    ensures
        old(minero).debe_recibir(mensajes@) ==> accion is Recibir && *final(minero) == *old(
            minero,
        ),
        !old(minero).debe_recibir(mensajes@) && old(minero).debe_entregar(mensajes@) ==> {
            &&& accion matches Accion::Entregar { destino, mensaje } && es_id_destino(
                mensajes@,
                destino,
            ) && mensaje == (Mensaje {
                tipo_operacion: TipoMensaje::Intercambio,
                id_minero_sender: old(minero).id,
                activo: true,
                pepitas: old(minero).pepitas_acumuladas,
            })
            &&& !final(minero).activo
            &&& final(minero).id == old(minero).id
            &&& final(minero).nombre == old(minero).nombre
            &&& final(minero).pepitas_obtenidas == old(minero).pepitas_obtenidas
            &&& final(minero).pepitas_acumuladas == old(minero).pepitas_acumuladas
        },
        !old(minero).debe_recibir(mensajes@) && !old(minero).debe_entregar(mensajes@) ==> accion is Seguir
            && *final(minero) == *old(minero),
{
    if minero.tengo_recibir_pepitas(mensajes) {
        Accion::Recibir
    } else if minero.tengo_entregar_pepitas(mensajes) {
        let mensaje = Mensaje {
            tipo_operacion: TipoMensaje::Intercambio,
            id_minero_sender: minero.id,
            activo: minero.activo,
            pepitas: *minero.get_pepitas_acumuladas(),
        };
        let destino = obtener_id_minero_destino(mensajes);
        minero.activo = false;
        Accion::Entregar { destino, mensaje }
    } else {
        Accion::Seguir
    }
}

} // verus!
