use vstd::prelude::*;
use std::sync::mpsc::{Receiver, Sender};

verus! {

/// Clase de mensaje que circula entre mineros.
#[derive(Copy, Clone)]
pub enum TipoMensaje {
    Intercambio,
    Informacion,
}

/// Lo que un minero informa a los demás al terminar una exploración.
#[derive(Copy, Clone)]
pub struct Mensaje {
    pub tipo_operacion: TipoMensaje,
    pub id_minero_sender: i32,
    pub activo: bool,
    pub pepitas: i32,
}


#[verifier::external_type_specification]
#[verifier::external_body]
#[verifier::reject_recursive_types(T)]
pub struct ExSender<T>(Sender<T>);

#[verifier::external_type_specification]
#[verifier::external_body]
#[verifier::reject_recursive_types(T)]
pub struct ExReceiver<T>(Receiver<T>);

/// Mensajes que el extremo emisor `c` entregó a su canal con éxito, en orden.
pub uninterp spec fn mensajes_aceptados(c: Sender<Mensaje>) -> Seq<Mensaje>;

/// Mensajes que el extremo receptor `c` sacó de su canal, en orden.
pub uninterp spec fn mensajes_recibidos(c: Receiver<Mensaje>) -> Seq<Mensaje>;

/// Envía `mensaje` por el canal con `std::sync::mpsc::Sender::send` y dice si
/// el envío se aceptó. Según la documentación de std, un envío aceptado deja
/// el mensaje en el canal para que lo reciba el otro extremo, y el envío falla
/// (sin dejar nada) solo cuando el extremo receptor ya no existe. El contrato
/// dice eso sobre los mensajes aceptados por este emisor; cuándo falla lo
/// decide otro hilo y no se afirma.
#[verifier::external_body]
fn enviar_por_canal(canal: &mut Sender<Mensaje>, mensaje: Mensaje) -> (aceptado: bool)
    ensures
        aceptado ==> mensajes_aceptados(*final(canal)) == mensajes_aceptados(*old(canal)).push(
            mensaje,
        ),
        !aceptado ==> mensajes_aceptados(*final(canal)) == mensajes_aceptados(*old(canal)),
{
    canal.send(mensaje).is_ok()
}

/// Espera un mensaje con `std::sync::mpsc::Receiver::recv`. Según la
/// documentación de std, bloquea hasta que llega un mensaje, que saca del
/// canal, y falla (sin sacar nada) solo cuando todos los emisores ya no
/// existen. El contrato dice que lo devuelto es lo que se sacó del canal; qué
/// llega y cuándo falla lo deciden otros hilos y no se afirma.
#[verifier::external_body]
fn recibir_por_canal(canal: &mut Receiver<Mensaje>) -> (recibido: Option<Mensaje>)
    ensures
        recibido matches Some(m) ==> mensajes_recibidos(*final(canal)) == mensajes_recibidos(
            *old(canal),
        ).push(m),
        recibido is None ==> mensajes_recibidos(*final(canal)) == mensajes_recibidos(*old(canal)),
{
    canal.recv().ok()
}

/// Lo enviado por cada canal tras una difusión de `valor` desde el minero `id`
/// que llegó hasta el canal `hasta` (excluido): cada canal anterior distinto
/// del propio aceptó `valor` una vez más; los demás quedan como estaban.
pub open spec fn tras_difusion(
    antes: Seq<Sender<Mensaje>>,
    despues: Seq<Sender<Mensaje>>,
    id: usize,
    hasta: int,
    valor: Mensaje,
) -> bool {
    &&& despues.len() == antes.len()
    &&& forall|k: int|
        #![trigger despues[k]]
        0 <= k < despues.len() ==> mensajes_aceptados(despues[k]) == if k < hasta && k != id {
            mensajes_aceptados(antes[k]).push(valor)
        } else {
            mensajes_aceptados(antes[k])
        }
}

/// La red de un minero: un canal de envío hacia cada minero (el propio
/// incluido) y el canal por el que recibe.
pub struct MineroNet {
    id: usize,
    senders: Vec<Sender<Mensaje>>,
    receiver: Receiver<Mensaje>,
}

impl MineroNet {
    /// Índice de este minero entre los canales.
    pub closed spec fn mi_id(&self) -> usize {
        self.id
    }

    /// Cantidad de canales de envío, uno por minero.
    pub closed spec fn cantidad_mineros(&self) -> nat {
        self.senders@.len()
    }

    /// Los canales de envío, en el orden de los mineros.
    pub closed spec fn canales(&self) -> Seq<Sender<Mensaje>> {
        self.senders@
    }

    /// El canal por el que recibe este minero.
    pub closed spec fn canal_de_entrada(&self) -> Receiver<Mensaje> {
        self.receiver
    }

    /// Mensajes aceptados hasta ahora por el canal hacia el minero `j`.
    pub open spec fn enviados_a(&self, j: int) -> Seq<Mensaje> {
        mensajes_aceptados(self.canales()[j])
    }

    /// Mensajes recibidos hasta ahora por el canal de entrada.
    pub open spec fn recibidos(&self) -> Seq<Mensaje> {
        mensajes_recibidos(self.canal_de_entrada())
    }

    pub fn new(id: usize, senders: Vec<Sender<Mensaje>>, receiver: Receiver<Mensaje>) -> (red:
        MineroNet)
        ensures
            red.mi_id() == id,
            red.cantidad_mineros() == senders@.len(),
            red.canales() == senders@,
            red.canal_de_entrada() == receiver,
    {
        MineroNet { id, senders, receiver }
    }

    /// Envía `valor` a todos los demás mineros, en orden de índice, por el
    /// canal de cada uno. Si un envío no se acepta se detiene y devuelve el
    /// índice de ese destino.
    pub fn notificar_todos(&mut self, valor: Mensaje) -> (r: Result<(), usize>)
        ensures
            final(self).mi_id() == old(self).mi_id(),
            final(self).cantidad_mineros() == old(self).cantidad_mineros(),
            final(self).canal_de_entrada() == old(self).canal_de_entrada(),
            r is Ok ==> tras_difusion(
                old(self).canales(),
                final(self).canales(),
                old(self).mi_id(),
                old(self).cantidad_mineros() as int,
                valor,
            ),
            r matches Err(j) ==> j < old(self).cantidad_mineros() && j != old(self).mi_id()
                && tras_difusion(
                old(self).canales(),
                final(self).canales(),
                old(self).mi_id(),
                j as int,
                valor,
            ),
    {
        let cant_hilos = self.senders.len();
        let mut j: usize = 0;
        while j < cant_hilos
            invariant
                cant_hilos == self.senders@.len(),
                0 <= j <= cant_hilos,
                self.id == old(self).id,
                self.receiver == old(self).receiver,
                tras_difusion(old(self).senders@, self.senders@, self.id, j as int, valor),
            decreases cant_hilos - j,
        {
            if j != self.id {
                let ghost previos = self.senders@;
                let aceptado = enviar_por_canal(&mut self.senders[j], valor);
                if !aceptado {
                    assert forall|k: int|
                        #![trigger self.senders@[k]]
                        0 <= k < self.senders@.len() && k != j implies self.senders@[k]
                        == previos[k] by {}
                    return Err(j);
                }
                assert forall|k: int| #![trigger self.senders@[k]] 0 <= k < self.senders@.len()
                    implies mensajes_aceptados(self.senders@[k]) == if k < j + 1 && k != self.id {
                    mensajes_aceptados(old(self).senders@[k]).push(valor)
                } else {
                    mensajes_aceptados(old(self).senders@[k])
                } by {
                    if k != j {
                        assert(self.senders@[k] == previos[k]);
                    }
                }
            }
            j = j + 1;
        }
        Ok(())
    }

    /// Espera un mensaje de cada uno de los demás mineros. Devuelve `None` si
    /// el canal deja de poder recibir antes de completarlos.
    pub fn escuchar_todos(&mut self) -> (r: Option<Vec<Mensaje>>)
        requires
            old(self).cantidad_mineros() >= 1,
        ensures
            final(self).mi_id() == old(self).mi_id(),
            final(self).canales() == old(self).canales(),
            r matches Some(v) ==> v@.len() == old(self).cantidad_mineros() - 1
                && final(self).recibidos() == old(self).recibidos() + v@,
            r is None ==> final(self).recibidos().len() < old(self).recibidos().len()
                + old(self).cantidad_mineros() - 1 && final(self).recibidos().subrange(
                0,
                old(self).recibidos().len() as int,
            ) == old(self).recibidos(),
    {
        let cant_hilos = self.senders.len();
        let mut mensajes: Vec<Mensaje> = Vec::new();
        let mut k: usize = 0;
        while k < cant_hilos - 1
            invariant
                cant_hilos == self.senders@.len(),
                cant_hilos >= 1,
                0 <= k <= cant_hilos - 1,
                mensajes@.len() == k,
                self.id == old(self).id,
                self.senders@ == old(self).senders@,
                mensajes_recibidos(self.receiver) == mensajes_recibidos(old(self).receiver)
                    + mensajes@,
            decreases cant_hilos - 1 - k,
        {
            match recibir_por_canal(&mut self.receiver) {
                Some(mensaje) => {
                    mensajes.push(mensaje);
                    assert(mensajes_recibidos(self.receiver) =~= mensajes_recibidos(
                        old(self).receiver,
                    ) + mensajes@);
                },
                None => {
                    assert(mensajes_recibidos(self.receiver).subrange(
                        0,
                        mensajes_recibidos(old(self).receiver).len() as int,
                    ) =~= mensajes_recibidos(old(self).receiver));
                    return None;
                },
            }
            k = k + 1;
        }
        Some(mensajes)
    }

    /// Espera el mensaje con las pepitas que otro minero entrega.
    pub fn recibir_pepitas(&mut self) -> (r: Option<Mensaje>)
        ensures
            final(self).mi_id() == old(self).mi_id(),
            final(self).canales() == old(self).canales(),
            r matches Some(m) ==> final(self).recibidos() == old(self).recibidos().push(m),
            r is None ==> final(self).recibidos() == old(self).recibidos(),
    {
        recibir_por_canal(&mut self.receiver)
    }

    /// Envía `mensaje` al minero `id_minero_destino` por su canal y dice si el
    /// envío se aceptó; los demás canales no se tocan.
    pub fn enviar_a(&mut self, id_minero_destino: usize, mensaje: Mensaje) -> (aceptado: bool)
        requires
            id_minero_destino < old(self).cantidad_mineros(),
        ensures
            final(self).mi_id() == old(self).mi_id(),
            final(self).cantidad_mineros() == old(self).cantidad_mineros(),
            final(self).canal_de_entrada() == old(self).canal_de_entrada(),
            forall|k: int|
                0 <= k < old(self).cantidad_mineros() && k != id_minero_destino
                    ==> #[trigger] final(self).enviados_a(k) == old(self).enviados_a(k),
            aceptado ==> final(self).enviados_a(id_minero_destino as int) == old(self).enviados_a(
                id_minero_destino as int,
            ).push(mensaje),
            !aceptado ==> final(self).enviados_a(id_minero_destino as int) == old(
                self,
            ).enviados_a(id_minero_destino as int),
    {
        enviar_por_canal(&mut self.senders[id_minero_destino], mensaje)
    }
}

} // verus!
