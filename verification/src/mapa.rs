use vstd::prelude::*;

verus! {

/// Elige al azar un entero en `[desde, hasta)` con el generador del hilo.
///
/// Llama a `rand::Rng::gen_range` sobre `rand::thread_rng()`. La
/// documentación de rand promete un valor en `[desde, hasta)` y un pánico
/// cuando `desde >= hasta`; el contrato solo afirma el rango, y el valor
/// elegido queda libre dentro de él.
#[verifier::external_body]
fn numero_al_azar(desde: i32, hasta: i32) -> (r: i32)
    requires
        desde < hasta,
    ensures
        desde <= r < hasta,
{
    rand::Rng::gen_range(&mut rand::thread_rng(), desde, hasta)
}

/// Región del mapa con las pepitas que le quedan.
pub struct Porcion {
    pub pepitas: i32,
}

impl Porcion {
    /// Retira `cantidad` pepitas de la región y devuelve lo retirado.
    pub fn retirar(&mut self, cantidad: i32) -> (extraida: i32)
        requires
            0 <= cantidad <= old(self).pepitas,
        ensures
            extraida == cantidad,
            final(self).pepitas == old(self).pepitas - cantidad,
    {
        self.pepitas = self.pepitas - cantidad;
        cantidad
    }

    /// Extrae una cantidad al azar, menor que lo que queda, de una región con
    /// pepitas; de una región sin pepitas no extrae nada.
    pub fn extraer(&mut self) -> (extraida: i32)
        ensures
            old(self).pepitas > 0 ==> 0 <= extraida < old(self).pepitas,
            old(self).pepitas <= 0 ==> extraida == 0,
            final(self).pepitas == old(self).pepitas - extraida,
    {
        if self.pepitas > 0 {
            let cantidad = numero_al_azar(0, self.pepitas);
            self.retirar(cantidad)
        } else {
            0
        }
    }
}

/// El mapa: sus regiones, cada una con sus pepitas.
pub struct Mapa {
    pub num_porciones: usize,
    pub porciones: Vec<Porcion>,
}

impl Mapa {
    /// Crea un mapa con `num_porciones` regiones; cada una recibe al azar
    /// entre 1 y `max_pepitas_por_porcion` pepitas.
    pub fn crear(num_porciones: usize, max_pepitas_por_porcion: i32) -> (mapa: Mapa)
        requires
            num_porciones > 0 ==> max_pepitas_por_porcion >= 1,
        ensures
            mapa.num_porciones == num_porciones,
            mapa.porciones@.len() == num_porciones,
            forall|i: int|
                0 <= i < num_porciones ==> 1 <= #[trigger] mapa.porciones@[i].pepitas
                    <= max_pepitas_por_porcion,
    {
        Mapa {
            num_porciones,
            porciones: Mapa::crear_divisiones(&num_porciones, &max_pepitas_por_porcion),
        }
    }

    /// Divide el mapa en `num_porciones` regiones, cada una con un número al
    /// azar de pepitas entre 1 y `max_pepitas_por_porcion`.
    fn crear_divisiones(num_porciones: &usize, max_pepitas_por_porcion: &i32) -> (porciones: Vec<
        Porcion,
    >)
        requires
            *num_porciones > 0 ==> *max_pepitas_por_porcion >= 1,
        ensures
            porciones@.len() == *num_porciones,
            forall|i: int|
                0 <= i < *num_porciones ==> 1 <= #[trigger] porciones@[i].pepitas
                    <= *max_pepitas_por_porcion,
    {
        let mut sorteos: Vec<i32> = Vec::with_capacity(*num_porciones);
        let mut n: usize = 0;
        while n < *num_porciones
            invariant
                0 <= n <= *num_porciones,
                *num_porciones > 0 ==> *max_pepitas_por_porcion >= 1,
                sorteos@.len() == n,
                forall|i: int|
                    0 <= i < n ==> 0 <= #[trigger] sorteos@[i] < *max_pepitas_por_porcion,
            decreases *num_porciones - n,
        {
            sorteos.push(numero_al_azar(0, *max_pepitas_por_porcion));
            n = n + 1;
        }
        Mapa::porciones_desde_sorteos(&sorteos)
    }

    /// Una región por cada número sorteado, con una pepita más que el número.
    pub fn porciones_desde_sorteos(sorteos: &Vec<i32>) -> (porciones: Vec<Porcion>)
        requires
            forall|i: int| 0 <= i < sorteos@.len() ==> #[trigger] sorteos@[i] < i32::MAX,
        ensures
            porciones@.len() == sorteos@.len(),
            forall|i: int|
                0 <= i < sorteos@.len() ==> #[trigger] porciones@[i].pepitas == sorteos@[i] + 1,
    {
        let mut porciones: Vec<Porcion> = Vec::with_capacity(sorteos.len());
        let mut n: usize = 0;
        while n < sorteos.len()
            invariant
                0 <= n <= sorteos@.len(),
                forall|i: int| 0 <= i < sorteos@.len() ==> #[trigger] sorteos@[i] < i32::MAX,
                porciones@.len() == n,
                forall|i: int| 0 <= i < n ==> #[trigger] porciones@[i].pepitas == sorteos@[i] + 1,
            decreases sorteos@.len() - n,
        {
            porciones.push(Porcion { pepitas: sorteos[n] + 1 });
            n = n + 1;
        }
        porciones
    }

    /// La región `num_porcion` del mapa.
    pub fn obtener_porcion(&self, num_porcion: usize) -> (porcion: &Porcion)
        requires
            num_porcion < self.porciones@.len(),
        ensures
            *porcion == self.porciones@[num_porcion as int],
    {
        &self.porciones[num_porcion]
    }

    /// Cantidad de regiones del mapa.
    pub fn total_porciones(&self) -> (total: usize)
        ensures
            total == self.porciones@.len(),
    {
        self.porciones.len()
    }
}

} // verus!
