# minado

Simulación de mineros que exploran las regiones de un mapa en rondas. En cada
ronda cada minero extrae pepitas de la región, informa a los demás cuántas
obtuvo y, con los informes recibidos, decide si entrega sus pepitas acumuladas
(es el único que obtuvo el mínimo) o si las recibe (tiene el mayor informe y el
mínimo no está repetido). Los informes de mineros inactivos se omiten. Un minero que entrega queda inactivo; el proceso
termina cuando queda un solo minero activo.

- `src/mapa.rs`: regiones y mapa; la extracción al azar.
- `src/minero.rs`: el minero y sus decisiones, con su especificación.
- `src/minero_net.rs`: mensajes y la red de canales entre mineros.
- `src/ronda.rs`: la decisión de cada ronda (recibir, entregar o seguir).
- `src/leyes.rs`: propiedades del protocolo que relacionan varias decisiones.
- `app/`: el programa: argumentos, hilos, barreras y el registro en `log.txt`.

La biblioteca está verificada con Verus; `tests/` prueba casos concretos.
