use crate::cuenta::AccountId;
use crate::errores::VotacionError;
use crate::fecha::Fecha;
use crate::usuario::Usuario;
use crate::votacion::{buscar_usuario, Votacion};
use vstd::prelude::*;

verus! {

/// `s` with `p` placed after the last entry whose count is at most `p`'s;
/// in a sequence sorted by count, this keeps it sorted and stable.
pub open spec fn insertar_por_votos(s: Seq<(AccountId, u32)>, p: (AccountId, u32)) -> Seq<(AccountId, u32)>
    decreases s.len(),
{
    if s.len() == 0 {
        seq![p]
    } else if s.last().1 <= p.1 {
        s.push(p)
    } else {
        insertar_por_votos(s.drop_last(), p).push(s.last())
    }
}

/// The entries of `s` sorted by ascending count, entries with equal counts
/// in the order they have in `s` (a stable insertion sort).
pub open spec fn ordenado_por_votos(s: Seq<(AccountId, u32)>) -> Seq<(AccountId, u32)>
    decreases s.len(),
{
    if s.len() == 0 {
        s
    } else {
        insertar_por_votos(ordenado_por_votos(s.drop_last()), s.last())
    }
}

/// Counts never decrease along `s`.
pub open spec fn ascendente(s: Seq<(AccountId, u32)>) -> bool {
    forall|i: int, j: int| 0 <= i < j < s.len() ==> s[i].1 <= s[j].1
}

/// No count in `s` exceeds `b`.
pub open spec fn acotado(s: Seq<(AccountId, u32)>, b: u32) -> bool {
    forall|i: int| 0 <= i < s.len() ==> s[i].1 <= b
}

/// Inserting an entry within a bound keeps every count within it.
proof fn lemma_insertar_acotado(s: Seq<(AccountId, u32)>, p: (AccountId, u32), b: u32)
    requires
        acotado(s, b),
        p.1 <= b,
    ensures
        acotado(insertar_por_votos(s, p), b),
    decreases s.len(),
{
    if s.len() > 0 && s.last().1 > p.1 {
        lemma_insertar_acotado(s.drop_last(), p, b);
    }
}

/// Inserting into an ascending tally keeps it ascending and adds exactly the entry.
proof fn lemma_insertar_ordena(s: Seq<(AccountId, u32)>, p: (AccountId, u32))
    requires
        ascendente(s),
    ensures
        ascendente(insertar_por_votos(s, p)),
        insertar_por_votos(s, p).to_multiset() == s.to_multiset().insert(p),
    decreases s.len(),
{
    broadcast use vstd::seq_lib::group_to_multiset_ensures;

    if s.len() == 0 {
        assert(seq![p] =~= s.push(p));
    } else if s.last().1 <= p.1 {
    } else {
        let d = s.drop_last();
        assert(s =~= d.push(s.last()));
        lemma_insertar_ordena(d, p);
        lemma_insertar_acotado(d, p, s.last().1);
        let t = insertar_por_votos(d, p);
        assert(t.to_multiset().insert(s.last()) =~= d.to_multiset().insert(s.last()).insert(p));
    }
}

/// The sorted tally is in ascending order of votes and holds exactly the
/// entries of the tally.
pub proof fn lemma_ordenado_por_votos(s: Seq<(AccountId, u32)>)
    ensures
        ascendente(ordenado_por_votos(s)),
        ordenado_por_votos(s).to_multiset() == s.to_multiset(),
    decreases s.len(),
{
    broadcast use vstd::seq_lib::group_to_multiset_ensures;

    if s.len() > 0 {
        let d = s.drop_last();
        assert(s =~= d.push(s.last()));
        lemma_ordenado_por_votos(d);
        lemma_insertar_ordena(ordenado_por_votos(d), s.last());
    }
}

/// The entries of `s` with exactly `n` votes, in their order in `s`.
pub open spec fn con_votos(s: Seq<(AccountId, u32)>, n: u32) -> Seq<(AccountId, u32)> {
    s.filter(|p: (AccountId, u32)| p.1 == n)
}

/// Inserting `p` appends it to the entries with its count and leaves the
/// other counts' entries as they were.
proof fn lemma_insertar_estable(s: Seq<(AccountId, u32)>, p: (AccountId, u32), n: u32)
    ensures
        con_votos(insertar_por_votos(s, p), n) == if p.1 == n {
            con_votos(s, n).push(p)
        } else {
            con_votos(s, n)
        },
    decreases s.len(),
{
    broadcast use vstd::prelude::Seq::lemma_filter_push;

    if s.len() == 0 {
        assert(seq![p] =~= s.push(p));
    } else if s.last().1 <= p.1 {
    } else {
        let d = s.drop_last();
        assert(s =~= d.push(s.last()));
        lemma_insertar_estable(d, p, n);
    }
}

/// Sorting keeps, for every count, the entries with that count in their
/// relative order in `s`: the sort is stable.
pub proof fn lemma_ordenado_estable(s: Seq<(AccountId, u32)>, n: u32)
    ensures
        con_votos(ordenado_por_votos(s), n) == con_votos(s, n),
    decreases s.len(),
{
    broadcast use vstd::prelude::Seq::lemma_filter_push;

    if s.len() > 0 {
        let d = s.drop_last();
        assert(s =~= d.push(s.last()));
        lemma_ordenado_estable(d, n);
        lemma_insertar_estable(ordenado_por_votos(d), s.last(), n);
    }
}

/// Inserts `p` into `r` as `insertar_por_votos` does.
fn insertar(r: &mut Vec<(AccountId, u32)>, p: (AccountId, u32))
    ensures
        final(r)@ == insertar_por_votos(old(r)@, p),
{
    let mut cola: Vec<(AccountId, u32)> = Vec::new();
    while r.len() > 0 && r[r.len() - 1].1 > p.1
        invariant
            insertar_por_votos(old(r)@, p) == insertar_por_votos(r@, p) + cola@,
        decreases r.len(),
    {
        let ultimo = r.pop().unwrap();
        cola.insert(0, ultimo);
        assert(insertar_por_votos(r@.push(ultimo), p) == insertar_por_votos(r@, p).push(ultimo)) by {
            assert(r@.push(ultimo).drop_last() =~= r@);
        }
        assert(insertar_por_votos(r@, p).push(ultimo) + cola@.drop_first() =~= insertar_por_votos(r@, p) + cola@);
    }
    let ghost base = r@;
    r.push(p);
    assert(r@ == insertar_por_votos(base, p));
    let mut k: usize = 0;
    while k < cola.len()
        invariant
            0 <= k <= cola.len(),
            insertar_por_votos(old(r)@, p) == insertar_por_votos(base, p) + cola@,
            r@ == insertar_por_votos(base, p) + cola@.subrange(0, k as int),
        decreases cola.len() - k,
    {
        r.push(cola[k]);
        k = k + 1;
        assert(r@ =~= insertar_por_votos(base, p) + cola@.subrange(0, k as int));
    }
    assert(cola@.subrange(0, k as int) =~= cola@);
}

/// The entries of `v` sorted by ascending count, stable.
fn ordenar_por_votos(v: &Vec<(AccountId, u32)>) -> (r: Vec<(AccountId, u32)>)
    ensures
        r@ == ordenado_por_votos(v@),
{
    let mut r: Vec<(AccountId, u32)> = Vec::new();
    let mut i: usize = 0;
    while i < v.len()
        invariant
            i <= v.len(),
            r@ == ordenado_por_votos(v@.subrange(0, i as int)),
        decreases v.len() - i,
    {
        proof {
            let s = v@.subrange(0, i + 1);
            assert(s.drop_last() =~= v@.subrange(0, i as int));
            assert(s.last() == v@[i as int]);
        }
        insertar(&mut r, v[i]);
        i = i + 1;
    }
    assert(v@.subrange(0, v.len() as int) =~= v@);
    r
}

/// The users registered as voters of an election.
#[derive(Debug, Clone, PartialEq, Default)]
pub struct DataRegistroVotantes {
    pub votantes: Vec<Usuario>,
}

impl DataRegistroVotantes {
    /// A report listing `votantes`.
    pub fn new(votantes: Vec<Usuario>) -> (r: DataRegistroVotantes)
        ensures
            r.votantes == votantes,
    {
        DataRegistroVotantes { votantes }
    }
}

/// Votes cast in an election and the percentage of accepted voters who voted.
#[derive(Debug, Clone, Copy, PartialEq, Eq, Structural, Default)]
pub struct DataParticipacion {
    pub votos: u32,
    pub porcentaje_participacion: u128,
}

impl DataParticipacion {
    /// A report of `votos` votes and `porcentaje_participacion` percent.
    pub fn new(votos: u32, porcentaje_participacion: u128) -> (r: DataParticipacion)
        ensures
            r == (DataParticipacion { votos, porcentaje_participacion }),
    {
        DataParticipacion { votos, porcentaje_participacion }
    }

    /// The participation of `num_votantes_voto` voters out of `num_votantes`:
    /// the percentage is rounded down, and with no voters the report is zero.
    pub fn desde_conteo(num_votantes: u128, num_votantes_voto: u128) -> (r: DataParticipacion)
        requires
            num_votantes_voto * 100 <= u128::MAX,
        ensures
            num_votantes == 0 ==> r == (DataParticipacion { votos: 0, porcentaje_participacion: 0 }),
            num_votantes > 0 ==> r == (DataParticipacion {
                votos: num_votantes_voto as u32,
                porcentaje_participacion: (num_votantes_voto * 100 / (num_votantes as int)) as u128,
            }),
    {
        if num_votantes == 0 {
            return DataParticipacion::new(0, 0);
        }
        let participacion = (num_votantes_voto * 100) / num_votantes;
        DataParticipacion::new(#[verifier::truncate] (num_votantes_voto as u32), participacion)
    }
}

/// The tally of an election, as reported.
#[derive(Debug, Clone, PartialEq, Default)]
pub struct DataResultado {
    pub resultado: Vec<(AccountId, u32)>,
}

impl DataResultado {
    /// A report holding `resultado`.
    pub fn new(resultado: Vec<(AccountId, u32)>) -> (r: DataResultado)
        ensures
            r.resultado == resultado,
    {
        DataResultado { resultado }
    }
}

/// The reporting service: it queries a voting service under its own identity
/// and derives the reports from what it is given.
pub struct Reportes {
    pub cuenta: AccountId,
}

impl Reportes {
    /// A reporting service that acts as `cuenta`.
    pub fn new(cuenta: AccountId) -> (r: Reportes)
        ensures
            r.cuenta == cuenta,
    {
        Reportes { cuenta }
    }

    /// The accepted voters of election `eleccion_id`, as `votacion` reports them.
    pub fn data_reporte_registro_votantes(&self, votacion: &Votacion, eleccion_id: u32) -> (r: Result<Vec<AccountId>, VotacionError>)
        ensures
            self.cuenta != votacion.reporte ==> r == Err::<Vec<AccountId>, VotacionError>(VotacionError::SoloReportes),
            self.cuenta == votacion.reporte && eleccion_id >= votacion@.elecciones.len() ==> r == Err::<Vec<AccountId>, VotacionError>(VotacionError::EleccionNoEncontrada),
            r is Ok <==> self.cuenta == votacion.reporte && eleccion_id < votacion@.elecciones.len(),
            r matches Ok(v) ==> v@ == votacion@.elecciones[eleccion_id as int].votantes,
    {
        votacion.reporte_registro_votantes(self.cuenta, eleccion_id)
    }

    /// The number of accepted voters and of those who voted in election
    /// `eleccion_id` at `ahora`, as `votacion` reports them.
    pub fn data_reporte_participacion(&self, votacion: &Votacion, ahora: &Fecha, eleccion_id: u32) -> (r: Result<(u128, u128), VotacionError>)
        ensures
            r == if self.cuenta != votacion.reporte {
                Err(VotacionError::SoloReportes)
            } else if eleccion_id >= votacion@.elecciones.len() {
                Err(VotacionError::EleccionNoEncontrada)
            } else if !votacion@.elecciones[eleccion_id as int].finalizada(*ahora) {
                Err(VotacionError::EleccionNoFinalizada)
            } else {
                Ok((
                    votacion@.elecciones[eleccion_id as int].votantes.len() as u128,
                    votacion@.elecciones[eleccion_id as int].votantes_voto.len() as u128,
                ))
            },
            r is Ok ==> votacion@.elecciones[eleccion_id as int].votantes_voto.len() <= usize::MAX,
    {
        votacion.reporte_participacion(self.cuenta, ahora, eleccion_id)
    }

    /// The tally of election `eleccion_id` at `ahora`, as `votacion` reports it.
    pub fn data_reporte_resultado(&self, votacion: &Votacion, ahora: &Fecha, eleccion_id: u32) -> (r: Result<Vec<(AccountId, u32)>, VotacionError>)
        ensures
            r matches Err(e) ==> e == if self.cuenta != votacion.reporte {
                VotacionError::SoloReportes
            } else if eleccion_id >= votacion@.elecciones.len() {
                VotacionError::EleccionNoEncontrada
            } else {
                VotacionError::EleccionNoFinalizada
            },
            r is Ok <==> self.cuenta == votacion.reporte && eleccion_id < votacion@.elecciones.len()
                && votacion@.elecciones[eleccion_id as int].finalizada(*ahora),
            r matches Ok(v) ==> v@ == votacion@.elecciones[eleccion_id as int].votos,
    {
        votacion.reporte_resultado(self.cuenta, ahora, eleccion_id)
    }

    /// The user record of `id` in `votacion`.
    pub fn get_usuario(&self, votacion: &Votacion, id: AccountId) -> (r: Result<Usuario, VotacionError>)
        ensures
            r == match buscar_usuario(votacion@.usuarios, id) {
                Some(u) => Ok(u),
                None => Err(VotacionError::UsuarioNoEncontrado),
            },
    {
        votacion.get_usuario(id)
    }

    /// The user records of the accepted voters of election `eleccion_id`, in
    /// the order they were accepted.
    pub fn reporte_registro_votantes(&self, votacion: &Votacion, eleccion_id: u32) -> (r: Result<DataRegistroVotantes, VotacionError>)
        ensures
            r is Ok <==> self.cuenta == votacion.reporte && eleccion_id < votacion@.elecciones.len()
                && forall|k: int|
                0 <= k < votacion@.elecciones[eleccion_id as int].votantes.len() ==> votacion@.es_usuario(
                    #[trigger] votacion@.elecciones[eleccion_id as int].votantes[k],
                ),
            r matches Err(e) ==> e == if self.cuenta != votacion.reporte {
                VotacionError::SoloReportes
            } else if eleccion_id >= votacion@.elecciones.len() {
                VotacionError::EleccionNoEncontrada
            } else {
                VotacionError::UsuarioNoEncontrado
            },
            r matches Ok(d) ==> d.votantes@.len() == votacion@.elecciones[eleccion_id as int].votantes.len()
                && forall|k: int|
                0 <= k < d.votantes@.len() ==> Some(#[trigger] d.votantes@[k]) == buscar_usuario(
                    votacion@.usuarios,
                    votacion@.elecciones[eleccion_id as int].votantes[k],
                ),
    {
        let id_votantes = match self.data_reporte_registro_votantes(votacion, eleccion_id) {
            Ok(v) => v,
            Err(e) => {
                return Err(e);
            },
        };
        let mut usuarios_votantes: Vec<Usuario> = Vec::new();
        let mut i: usize = 0;
        while i < id_votantes.len()
            invariant
                i <= id_votantes.len(),
                self.cuenta == votacion.reporte,
                eleccion_id < votacion@.elecciones.len(),
                id_votantes@ == votacion@.elecciones[eleccion_id as int].votantes,
                usuarios_votantes@.len() == i,
                forall|k: int| 0 <= k < i ==> votacion@.es_usuario(#[trigger] id_votantes@[k]),
                forall|k: int|
                    0 <= k < i ==> Some(#[trigger] usuarios_votantes@[k]) == buscar_usuario(
                        votacion@.usuarios,
                        id_votantes@[k],
                    ),
            decreases id_votantes.len() - i,
        {
            match self.get_usuario(votacion, id_votantes[i]) {
                Ok(u) => {
                    usuarios_votantes.push(u);
                },
                Err(e) => {
                    return Err(e);
                },
            }
            i = i + 1;
        }
        Ok(DataRegistroVotantes::new(usuarios_votantes))
    }

    /// The participation in election `eleccion_id` once it is over: votes
    /// cast and the percentage of accepted voters who voted, rounded down;
    /// zero and zero when it has no voters.
    pub fn reporte_participacion(&self, votacion: &Votacion, ahora: &Fecha, eleccion_id: u32) -> (r: Result<DataParticipacion, VotacionError>)
        ensures
            r == match self.data_reporte_participacion_spec(votacion, *ahora, eleccion_id) {
                Err(e) => Err(e),
                Ok((n, v)) => Ok(
                    if n == 0 {
                        DataParticipacion { votos: 0, porcentaje_participacion: 0 }
                    } else {
                        DataParticipacion { votos: v as u32, porcentaje_participacion: (v * 100 / (n as int)) as u128 }
                    },
                ),
            },
    {
        let data = match self.data_reporte_participacion(votacion, ahora, eleccion_id) {
            Ok(d) => d,
            Err(e) => {
                return Err(e);
            },
        };
        let num_votantes = data.0;
        let num_votantes_voto = data.1;
        Ok(DataParticipacion::desde_conteo(num_votantes, num_votantes_voto))
    }

    /// What `data_reporte_participacion` returns.
    pub open spec fn data_reporte_participacion_spec(self, votacion: &Votacion, ahora: Fecha, eleccion_id: u32) -> Result<(u128, u128), VotacionError> {
        if self.cuenta != votacion.reporte {
            Err(VotacionError::SoloReportes)
        } else if eleccion_id >= votacion@.elecciones.len() {
            Err(VotacionError::EleccionNoEncontrada)
        } else if !votacion@.elecciones[eleccion_id as int].finalizada(ahora) {
            Err(VotacionError::EleccionNoFinalizada)
        } else {
            Ok((
                votacion@.elecciones[eleccion_id as int].votantes.len() as u128,
                votacion@.elecciones[eleccion_id as int].votantes_voto.len() as u128,
            ))
        }
    }

    /// The final tally of election `eleccion_id` sorted by ascending votes,
    /// ties in the order the candidates were accepted.
    pub fn reporte_resultado(&self, votacion: &Votacion, ahora: &Fecha, eleccion_id: u32) -> (r: Result<DataResultado, VotacionError>)
        ensures
            r matches Err(e) ==> e == if self.cuenta != votacion.reporte {
                VotacionError::SoloReportes
            } else if eleccion_id >= votacion@.elecciones.len() {
                VotacionError::EleccionNoEncontrada
            } else {
                VotacionError::EleccionNoFinalizada
            },
            r is Ok <==> self.cuenta == votacion.reporte && eleccion_id < votacion@.elecciones.len()
                && votacion@.elecciones[eleccion_id as int].finalizada(*ahora),
            r matches Ok(d) ==> d.resultado@ == ordenado_por_votos(votacion@.elecciones[eleccion_id as int].votos),
            r matches Ok(d) ==> ascendente(d.resultado@) && d.resultado@.to_multiset()
                == votacion@.elecciones[eleccion_id as int].votos.to_multiset(),
            r matches Ok(d) ==> forall|n: u32|
                #[trigger] con_votos(d.resultado@, n) == con_votos(votacion@.elecciones[eleccion_id as int].votos, n),
    {
        let data = match self.data_reporte_resultado(votacion, ahora, eleccion_id) {
            Ok(d) => d,
            Err(e) => {
                return Err(e);
            },
        };
        proof {
            lemma_ordenado_por_votos(data@);
            assert forall|n: u32| #[trigger] con_votos(ordenado_por_votos(data@), n) == con_votos(data@, n) by {
                lemma_ordenado_estable(data@, n);
            }
        }
        Ok(DataResultado::new(ordenar_por_votos(&data)))
    }
}

} // verus!
