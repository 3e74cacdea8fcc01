use crate::cuenta::AccountId;
use crate::errores::VotacionError;
use crate::fecha::Fecha;
use vstd::prelude::*;

verus! {

/// The tally entry of `c`: the count of its first entry in `s`, zero when it has none.
pub open spec fn votos_en(s: Seq<(AccountId, u32)>, c: AccountId) -> u32
    decreases s.len(),
{
    if s.len() == 0 {
        0
    } else if s[0].0 == c {
        s[0].1
    } else {
        votos_en(s.drop_first(), c)
    }
}

/// The candidates named by a tally, in its order.
pub open spec fn claves(s: Seq<(AccountId, u32)>) -> Seq<AccountId> {
    s.map_values(|p: (AccountId, u32)| p.0)
}

/// No identity is in both lists.
pub open spec fn excluyentes(a: Seq<AccountId>, b: Seq<AccountId>) -> bool {
    forall|x: AccountId| a.contains(x) ==> !b.contains(x)
}

/// The outcome of an operation whose first failed check is `error`.
pub open spec fn resultado(error: Option<VotacionError>) -> Result<(), VotacionError> {
    match error {
        Some(e) => Err(e),
        None => Ok(()),
    }
}

/// The state of one election, as sequences.
pub struct EleccionView {
    pub id: u32,
    pub votantes_sin_aceptar: Seq<AccountId>,
    pub candidatos_sin_aceptar: Seq<AccountId>,
    pub votantes: Seq<AccountId>,
    pub candidatos: Seq<AccountId>,
    pub votantes_voto: Seq<AccountId>,
    pub votos: Seq<(AccountId, u32)>,
    pub fecha_inicio: Fecha,
    pub fecha_fin: Fecha,
}

impl EleccionView {
    /// The election has started at `t`: `t` is not before the start.
    pub open spec fn iniciada(self, t: Fecha) -> bool {
        !self.fecha_inicio.posterior_a(t)
    }

    /// The election is over at `t`: `t` is after the end.
    pub open spec fn finalizada(self, t: Fecha) -> bool {
        t.posterior_a(self.fecha_fin)
    }

    /// Votes counted for `c`.
    pub open spec fn votos_de(self, c: AccountId) -> u32 {
        votos_en(self.votos, c)
    }

    /// The invariant of an election: no list repeats an identity; an
    /// identity holds at most one of the four roles (pending voter, pending
    /// candidate, accepted voter, accepted candidate); the tally names exactly
    /// the accepted candidates, in the order they were accepted; only
    /// accepted voters have voted; no count exceeds the votes cast; the start
    /// is not after the end.
    #[verifier::opaque]
    pub open spec fn wf(self) -> bool {
        &&& self.votantes_sin_aceptar.no_duplicates()
        &&& self.candidatos_sin_aceptar.no_duplicates()
        &&& self.votantes.no_duplicates()
        &&& self.candidatos.no_duplicates()
        &&& self.votantes_voto.no_duplicates()
        &&& excluyentes(self.votantes_sin_aceptar, self.candidatos_sin_aceptar)
        &&& excluyentes(self.votantes_sin_aceptar, self.votantes)
        &&& excluyentes(self.votantes_sin_aceptar, self.candidatos)
        &&& excluyentes(self.candidatos_sin_aceptar, self.votantes)
        &&& excluyentes(self.candidatos_sin_aceptar, self.candidatos)
        &&& excluyentes(self.votantes, self.candidatos)
        &&& claves(self.votos) == self.candidatos
        &&& forall|x: AccountId| self.votantes_voto.contains(x) ==> self.votantes.contains(x)
        &&& forall|i: int| 0 <= i < self.votos.len() ==> self.votos[i].1 <= self.votantes_voto.len()
        &&& !self.fecha_inicio.posterior_a(self.fecha_fin)
    }

    /// Why nominating `id` (as candidate or as voter) at `t` is refused, if it is.
    pub open spec fn error_postulacion(self, id: AccountId, t: Fecha) -> Option<VotacionError> {
        if self.finalizada(t) {
            Some(VotacionError::EleccionYaFinalizada)
        } else if self.iniciada(t) {
            Some(VotacionError::EleccionYaIniciada)
        } else if self.candidatos_sin_aceptar.contains(id) {
            Some(VotacionError::UsuarioEsPostuladoCandidato)
        } else if self.votantes_sin_aceptar.contains(id) {
            Some(VotacionError::UsuarioEsPostuladoVotante)
        } else if self.candidatos.contains(id) {
            Some(VotacionError::UsuarioEsCandidato)
        } else if self.votantes.contains(id) {
            Some(VotacionError::UsuarioEsVotante)
        } else {
            None
        }
    }

    /// Why approving `id` as candidate at `t` is refused, if it is.
    pub open spec fn error_agregar_candidato(self, id: AccountId, t: Fecha) -> Option<VotacionError> {
        if self.finalizada(t) {
            Some(VotacionError::EleccionYaFinalizada)
        } else if self.iniciada(t) {
            Some(VotacionError::EleccionYaIniciada)
        } else if self.candidatos.contains(id) {
            Some(VotacionError::UsuarioEsCandidato)
        } else if self.votantes.contains(id) {
            Some(VotacionError::UsuarioEsVotante)
        } else if !self.candidatos_sin_aceptar.contains(id) {
            Some(VotacionError::UsuarioNoPostuladoCandidato)
        } else {
            None
        }
    }

    /// Why approving `id` as voter at `t` is refused, if it is.
    pub open spec fn error_agregar_votante(self, id: AccountId, t: Fecha) -> Option<VotacionError> {
        if self.finalizada(t) {
            Some(VotacionError::EleccionYaFinalizada)
        } else if self.iniciada(t) {
            Some(VotacionError::EleccionYaIniciada)
        } else if self.votantes.contains(id) {
            Some(VotacionError::UsuarioEsVotante)
        } else if self.candidatos.contains(id) {
            Some(VotacionError::UsuarioEsCandidato)
        } else if !self.votantes_sin_aceptar.contains(id) {
            Some(VotacionError::UsuarioNoPostuladoVotante)
        } else {
            None
        }
    }

    /// Why the vote of `votante` for `candidato` at `t` is refused, if it is.
    pub open spec fn error_votar(self, votante: AccountId, candidato: AccountId, t: Fecha) -> Option<
        VotacionError,
    > {
        if self.finalizada(t) {
            Some(VotacionError::EleccionYaFinalizada)
        } else if !self.iniciada(t) {
            Some(VotacionError::EleccionNoIniciada)
        } else if !self.votantes.contains(votante) {
            Some(VotacionError::UsuarioNoEsVotante)
        } else if !self.candidatos.contains(candidato) {
            Some(VotacionError::UsuarioNoEsCandidato)
        } else if self.votantes_voto.contains(votante) {
            Some(VotacionError::UsuarioYaVoto)
        } else {
            None
        }
    }

    /// The election after `id` is nominated as candidate.
    pub open spec fn con_candidato_postulado(self, id: AccountId) -> EleccionView {
        EleccionView { candidatos_sin_aceptar: self.candidatos_sin_aceptar.push(id), ..self }
    }

    /// The election after `id` is nominated as voter.
    pub open spec fn con_votante_postulado(self, id: AccountId) -> EleccionView {
        EleccionView { votantes_sin_aceptar: self.votantes_sin_aceptar.push(id), ..self }
    }

    /// The election after the nominated candidate `id` is accepted, with a
    /// tally entry of zero.
    pub open spec fn con_candidato_aceptado(self, id: AccountId) -> EleccionView {
        EleccionView {
            candidatos_sin_aceptar: self.candidatos_sin_aceptar.remove(
                self.candidatos_sin_aceptar.index_of(id),
            ),
            candidatos: self.candidatos.push(id),
            votos: self.votos.push((id, 0u32)),
            ..self
        }
    }

    /// The election after the nominated voter `id` is accepted.
    pub open spec fn con_votante_aceptado(self, id: AccountId) -> EleccionView {
        EleccionView {
            votantes_sin_aceptar: self.votantes_sin_aceptar.remove(
                self.votantes_sin_aceptar.index_of(id),
            ),
            votantes: self.votantes.push(id),
            ..self
        }
    }

    /// The election after `votante` votes for `candidato`: the voter is
    /// recorded and the candidate's count grows by one.
    pub open spec fn con_voto(self, votante: AccountId, candidato: AccountId) -> EleccionView {
        let i = claves(self.votos).index_of(candidato);
        EleccionView {
            votantes_voto: self.votantes_voto.push(votante),
            votos: self.votos.update(i, (candidato, (self.votos[i].1 + 1) as u32)),
            ..self
        }
    }
}

/// One election: its nominations, accepted roles, who voted, the tally and its dates.
#[derive(Debug, Clone, PartialEq, Default)]
pub struct Eleccion {
    pub id: u32,
    pub votantes_sin_aceptar: Vec<AccountId>,
    pub candidatos_sin_aceptar: Vec<AccountId>,
    pub votantes: Vec<AccountId>,
    pub candidatos: Vec<AccountId>,
    pub votantes_voto: Vec<AccountId>,
    pub votos: Vec<(AccountId, u32)>,
    pub fecha_inicio: Fecha,
    pub fecha_fin: Fecha,
}

impl View for Eleccion {
    type V = EleccionView;

    open spec fn view(&self) -> EleccionView {
        EleccionView {
            id: self.id,
            votantes_sin_aceptar: self.votantes_sin_aceptar@,
            candidatos_sin_aceptar: self.candidatos_sin_aceptar@,
            votantes: self.votantes@,
            candidatos: self.candidatos@,
            votantes_voto: self.votantes_voto@,
            votos: self.votos@,
            fecha_inicio: self.fecha_inicio,
            fecha_fin: self.fecha_fin,
        }
    }
}

/// Whether `id` is in `v`.
fn contiene(v: &Vec<AccountId>, id: &AccountId) -> (r: bool)
    ensures
        r == v@.contains(*id),
{
    let mut i: usize = 0;
    while i < v.len()
        invariant
            i <= v.len(),
            forall|j: int| 0 <= j < i ==> v@[j] != *id,
        decreases v.len() - i,
    {
        if v[i] == *id {
            return true;
        }
        i = i + 1;
    }
    false
}

/// The position of `id` in `v`, which holds it.
fn posicion(v: &Vec<AccountId>, id: &AccountId) -> (r: usize)
    requires
        v@.contains(*id),
    ensures
        r < v.len(),
        v@[r as int] == *id,
        forall|j: int| 0 <= j < r ==> v@[j] != *id,
{
    let mut i: usize = 0;
    while i < v.len()
        invariant
            i <= v.len(),
            v@.contains(*id),
            forall|j: int| 0 <= j < i ==> v@[j] != *id,
        decreases v.len() - i,
    {
        if v[i] == *id {
            return i;
        }
        i = i + 1;
    }
    proof {
        let k = choose|k: int| 0 <= k < v.len() && v@[k] == *id;
        assert(v@[k] != *id);
    }
    0
}

/// A copy of `v`.
fn copiar<T: Copy>(v: &Vec<T>) -> (r: Vec<T>)
    ensures
        r@ == v@,
{
    let mut r: Vec<T> = Vec::new();
    let mut i: usize = 0;
    while i < v.len()
        invariant
            i <= v.len(),
            r@ == v@.subrange(0, i as int),
        decreases v.len() - i,
    {
        r.push(v[i]);
        i = i + 1;
        assert(r@ =~= v@.subrange(0, i as int));
    }
    assert(r@ =~= v@);
    r
}

impl Eleccion {
    /// An election with no participants, running from `fecha_inicio` to `fecha_fin`.
    pub fn new(id: u32, fecha_inicio: Fecha, fecha_fin: Fecha) -> (r: Eleccion)
        ensures
            r@ == (EleccionView {
                id,
                votantes_sin_aceptar: Seq::empty(),
                candidatos_sin_aceptar: Seq::empty(),
                votantes: Seq::empty(),
                candidatos: Seq::empty(),
                votantes_voto: Seq::empty(),
                votos: Seq::empty(),
                fecha_inicio,
                fecha_fin,
            }),
            !fecha_inicio.posterior_a(fecha_fin) ==> r@.wf(),
    {
        proof {
            reveal(EleccionView::wf);
        }
        let r = Eleccion {
            id,
            votantes_sin_aceptar: Vec::new(),
            candidatos_sin_aceptar: Vec::new(),
            votantes: Vec::new(),
            candidatos: Vec::new(),
            votantes_voto: Vec::new(),
            votos: Vec::new(),
            fecha_inicio,
            fecha_fin,
        };
        assert(claves(r.votos@) =~= r.candidatos@);
        r
    }

    /// A copy of the election.
    pub fn copia(&self) -> (r: Eleccion)
        ensures
            r@ == self@,
    {
        Eleccion {
            id: self.id,
            votantes_sin_aceptar: copiar(&self.votantes_sin_aceptar),
            candidatos_sin_aceptar: copiar(&self.candidatos_sin_aceptar),
            votantes: copiar(&self.votantes),
            candidatos: copiar(&self.candidatos),
            votantes_voto: copiar(&self.votantes_voto),
            votos: copiar(&self.votos),
            fecha_inicio: self.fecha_inicio,
            fecha_fin: self.fecha_fin,
        }
    }

    /// The election's id.
    pub fn get_id(&self) -> (r: u32)
        ensures
            r == self.id,
    {
        self.id
    }

    /// Whether `id` is nominated as candidate and not yet accepted.
    pub fn is_postulado_candidato(&self, id: &AccountId) -> (r: bool)
        ensures
            r == self@.candidatos_sin_aceptar.contains(*id),
    {
        contiene(&self.candidatos_sin_aceptar, id)
    }

    /// Whether `id` is nominated as voter and not yet accepted.
    pub fn is_postulado_votante(&self, id: &AccountId) -> (r: bool)
        ensures
            r == self@.votantes_sin_aceptar.contains(*id),
    {
        contiene(&self.votantes_sin_aceptar, id)
    }

    /// Whether `id` is an accepted voter.
    pub fn is_votante(&self, id: &AccountId) -> (r: bool)
        ensures
            r == self@.votantes.contains(*id),
    {
        contiene(&self.votantes, id)
    }

    /// Whether `id` is an accepted candidate.
    pub fn is_candidato(&self, id: &AccountId) -> (r: bool)
        ensures
            r == self@.candidatos.contains(*id),
    {
        contiene(&self.candidatos, id)
    }

    /// The start date.
    pub fn get_fecha_inicio(&self) -> (r: Fecha)
        ensures
            r == self.fecha_inicio,
    {
        self.fecha_inicio
    }

    /// The end date.
    pub fn get_fecha_fin(&self) -> (r: Fecha)
        ensures
            r == self.fecha_fin,
    {
        self.fecha_fin
    }

    /// Whether `id_votante` has already voted.
    pub fn ya_voto(&self, id_votante: &AccountId) -> (r: bool)
        ensures
            r == self@.votantes_voto.contains(*id_votante),
    {
        contiene(&self.votantes_voto, id_votante)
    }

    /// Whether the election has started at `current_time`.
    pub fn get_inicio(&self, current_time: &Fecha) -> (r: bool)
        ensures
            r == self@.iniciada(*current_time),
    {
        !self.fecha_inicio.es_mayor(current_time)
    }

    /// Whether the election is over at `current_time`.
    pub fn get_finalizada(&self, current_time: &Fecha) -> (r: bool)
        ensures
            r == self@.finalizada(*current_time),
    {
        current_time.es_mayor(&self.fecha_fin)
    }

    /// Nominates `id_votante` as voter, before the election starts.
    pub fn postular_votante(&mut self, id_votante: AccountId, current_time: &Fecha) -> (r: Result<(), VotacionError>)
        requires
            old(self)@.wf(),
        ensures
            final(self)@.wf(),
            r == resultado(old(self)@.error_postulacion(id_votante, *current_time)),
            r is Ok ==> final(self)@ == old(self)@.con_votante_postulado(id_votante),
            r is Err ==> final(self)@ == old(self)@,
    {
        proof {
            reveal(EleccionView::wf);
        }
        if self.get_finalizada(current_time) {
            return Err(VotacionError::EleccionYaFinalizada);
        }
        if self.get_inicio(current_time) {
            return Err(VotacionError::EleccionYaIniciada);
        }
        if self.is_postulado_candidato(&id_votante) {
            return Err(VotacionError::UsuarioEsPostuladoCandidato);
        }
        if self.is_postulado_votante(&id_votante) {
            return Err(VotacionError::UsuarioEsPostuladoVotante);
        }
        if self.is_candidato(&id_votante) {
            return Err(VotacionError::UsuarioEsCandidato);
        }
        if self.is_votante(&id_votante) {
            return Err(VotacionError::UsuarioEsVotante);
        }
        self.votantes_sin_aceptar.push(id_votante);
        proof {
            lemma_push_contiene(old(self)@.votantes_sin_aceptar, id_votante);
        }
        Ok(())
    }

    /// Nominates `id_candidato` as candidate, before the election starts.
    pub fn postular_candidato(&mut self, id_candidato: AccountId, current_time: &Fecha) -> (r: Result<(), VotacionError>)
        requires
            old(self)@.wf(),
        ensures
            final(self)@.wf(),
            r == resultado(old(self)@.error_postulacion(id_candidato, *current_time)),
            r is Ok ==> final(self)@ == old(self)@.con_candidato_postulado(id_candidato),
            r is Err ==> final(self)@ == old(self)@,
    {
        proof {
            reveal(EleccionView::wf);
        }
        if self.get_finalizada(current_time) {
            return Err(VotacionError::EleccionYaFinalizada);
        }
        if self.get_inicio(current_time) {
            return Err(VotacionError::EleccionYaIniciada);
        }
        if self.is_postulado_candidato(&id_candidato) {
            return Err(VotacionError::UsuarioEsPostuladoCandidato);
        }
        if self.is_postulado_votante(&id_candidato) {
            return Err(VotacionError::UsuarioEsPostuladoVotante);
        }
        if self.is_candidato(&id_candidato) {
            return Err(VotacionError::UsuarioEsCandidato);
        }
        if self.is_votante(&id_candidato) {
            return Err(VotacionError::UsuarioEsVotante);
        }
        self.candidatos_sin_aceptar.push(id_candidato);
        proof {
            lemma_push_contiene(old(self)@.candidatos_sin_aceptar, id_candidato);
        }
        Ok(())
    }

    /// Accepts the nominated candidate `id_candidato`, before the election
    /// starts; the candidate's tally starts at zero.
    pub fn agregar_candidato(&mut self, id_candidato: AccountId, current_time: &Fecha) -> (r: Result<(), VotacionError>)
        requires
            old(self)@.wf(),
        ensures
            final(self)@.wf(),
            r == resultado(old(self)@.error_agregar_candidato(id_candidato, *current_time)),
            r is Ok ==> final(self)@ == old(self)@.con_candidato_aceptado(id_candidato),
            r is Err ==> final(self)@ == old(self)@,
    {
        proof {
            reveal(EleccionView::wf);
        }
        if self.get_finalizada(current_time) {
            return Err(VotacionError::EleccionYaFinalizada);
        }
        if self.get_inicio(current_time) {
            return Err(VotacionError::EleccionYaIniciada);
        }
        if self.is_candidato(&id_candidato) {
            return Err(VotacionError::UsuarioEsCandidato);
        }
        if self.is_votante(&id_candidato) {
            return Err(VotacionError::UsuarioEsVotante);
        }
        if !self.is_postulado_candidato(&id_candidato) {
            return Err(VotacionError::UsuarioNoPostuladoCandidato);
        }
        let pos = posicion(&self.candidatos_sin_aceptar, &id_candidato);
        let aceptado = self.candidatos_sin_aceptar.remove(pos);
        self.candidatos.push(aceptado);
        self.votos.push((id_candidato, 0));
        proof {
            let antes = old(self)@;
            assert(antes.candidatos_sin_aceptar.index_of(id_candidato) == pos as int);
            lemma_remove_contiene(antes.candidatos_sin_aceptar, pos as int);
            lemma_push_contiene(antes.candidatos, id_candidato);
            assert(claves(self.votos@) =~= claves(antes.votos).push(id_candidato));
        }
        Ok(())
    }

    /// Accepts the nominated voter `id_votante`, before the election starts.
    pub fn agregar_votante(&mut self, id_votante: AccountId, current_time: &Fecha) -> (r: Result<(), VotacionError>)
        requires
            old(self)@.wf(),
        ensures
            final(self)@.wf(),
            r == resultado(old(self)@.error_agregar_votante(id_votante, *current_time)),
            r is Ok ==> final(self)@ == old(self)@.con_votante_aceptado(id_votante),
            r is Err ==> final(self)@ == old(self)@,
    {
        proof {
            reveal(EleccionView::wf);
        }
        if self.get_finalizada(current_time) {
            return Err(VotacionError::EleccionYaFinalizada);
        }
        if self.get_inicio(current_time) {
            return Err(VotacionError::EleccionYaIniciada);
        }
        if self.is_votante(&id_votante) {
            return Err(VotacionError::UsuarioEsVotante);
        }
        if self.is_candidato(&id_votante) {
            return Err(VotacionError::UsuarioEsCandidato);
        }
        if !self.is_postulado_votante(&id_votante) {
            return Err(VotacionError::UsuarioNoPostuladoVotante);
        }
        let pos = posicion(&self.votantes_sin_aceptar, &id_votante);
        let aceptado = self.votantes_sin_aceptar.remove(pos);
        self.votantes.push(aceptado);
        proof {
            let antes = old(self)@;
            assert(antes.votantes_sin_aceptar.index_of(id_votante) == pos as int);
            lemma_remove_contiene(antes.votantes_sin_aceptar, pos as int);
            lemma_push_contiene(antes.votantes, id_votante);
        }
        Ok(())
    }

    /// Records the vote of `id_votante` for `id_candidato` while the election runs.
    pub fn votar(&mut self, id_votante: &AccountId, id_candidato: &AccountId, current_time: &Fecha) -> (r: Result<(), VotacionError>)
        requires
            old(self)@.wf(),
            old(self)@.votantes_voto.len() < u32::MAX,
        ensures
            final(self)@.wf(),
            r == resultado(old(self)@.error_votar(*id_votante, *id_candidato, *current_time)),
            r is Ok ==> final(self)@ == old(self)@.con_voto(*id_votante, *id_candidato),
            r is Err ==> final(self)@ == old(self)@,
            forall|x: AccountId|
                #[trigger] final(self)@.votos_de(x) == old(self)@.votos_de(x) + if r is Ok && x == *id_candidato {
                    1int
                } else {
                    0int
                },
    {
        proof {
            reveal(EleccionView::wf);
        }
        if self.get_finalizada(current_time) {
            return Err(VotacionError::EleccionYaFinalizada);
        }
        if !self.get_inicio(current_time) {
            return Err(VotacionError::EleccionNoIniciada);
        }
        if !self.is_votante(id_votante) {
            return Err(VotacionError::UsuarioNoEsVotante);
        }
        if !self.is_candidato(id_candidato) {
            return Err(VotacionError::UsuarioNoEsCandidato);
        }
        if self.ya_voto(id_votante) {
            return Err(VotacionError::UsuarioYaVoto);
        }
        let ghost antes = self@;
        self.votantes_voto.push(*id_votante);
        let i = posicion_en_votos(&self.votos, id_candidato);
        let (candidato, votos) = self.votos[i];
        assert(votos <= antes.votantes_voto.len());
        self.votos.set(i, (candidato, votos + 1));
        proof {
            assert(claves(antes.votos)[i as int] == *id_candidato);
            assert(claves(antes.votos).index_of(*id_candidato) == i as int);
            lemma_push_contiene(antes.votantes_voto, *id_votante);
            assert(claves(self.votos@) =~= claves(antes.votos));
            assert forall|x: AccountId|
                #[trigger] self@.votos_de(x) == antes.votos_de(x) + if x == *id_candidato {
                    1int
                } else {
                    0int
                } by {
                lemma_voto_suma_uno(antes, *id_votante, *id_candidato, *current_time, x);
            }
        }
        Ok(())
    }

    /// The votes of `id_candidato`, once the election is over.
    pub fn get_votos_candidato(&self, id_candidato: &AccountId, current_time: &Fecha) -> (r: Result<u32, VotacionError>)
        ensures
            r == if !self@.finalizada(*current_time) {
                Err(VotacionError::EleccionNoFinalizada)
            } else if !self@.candidatos.contains(*id_candidato) {
                Err(VotacionError::UsuarioNoEsCandidato)
            } else {
                Ok(self@.votos_de(*id_candidato))
            },
    {
        if !self.get_finalizada(current_time) {
            return Err(VotacionError::EleccionNoFinalizada);
        }
        if self.is_candidato(id_candidato) {
            Ok(votos_de_candidato(&self.votos, id_candidato))
        } else {
            Err(VotacionError::UsuarioNoEsCandidato)
        }
    }

    /// The whole tally in the order candidates were accepted, once the election is over.
    pub fn get_votos(&self, current_time: &Fecha) -> (r: Result<Vec<(AccountId, u32)>, VotacionError>)
        ensures
            r is Ok <==> self@.finalizada(*current_time),
            r is Err ==> r == Err::<Vec<(AccountId, u32)>, VotacionError>(VotacionError::EleccionNoFinalizada),
            r matches Ok(v) ==> v@ == self@.votos,
    {
        if !self.get_finalizada(current_time) {
            return Err(VotacionError::EleccionNoFinalizada);
        }
        Ok(copiar(&self.votos))
    }

    /// The accepted voters, in the order they were accepted.
    pub fn reporte_registro_votantes(&self) -> (r: Vec<AccountId>)
        ensures
            r@ == self@.votantes,
    {
        copiar(&self.votantes)
    }

    /// The number of accepted voters and of those who voted, once the election is over.
    pub fn reporte_participacion(&self, current_time: &Fecha) -> (r: Result<(u128, u128), VotacionError>)
        ensures
            r == if self@.finalizada(*current_time) {
                Ok((self@.votantes.len() as u128, self@.votantes_voto.len() as u128))
            } else {
                Err(VotacionError::EleccionNoFinalizada)
            },
            r is Ok ==> self@.votantes_voto.len() <= usize::MAX,
    {
        if !self.get_finalizada(current_time) {
            return Err(VotacionError::EleccionNoFinalizada);
        }
        Ok((self.votantes.len() as u128, self.votantes_voto.len() as u128))
    }

    /// The final tally, in the order candidates were accepted, once the election is over.
    pub fn reporte_resultado(&self, current_time: &Fecha) -> (r: Result<Vec<(AccountId, u32)>, VotacionError>)
        ensures
            r is Ok <==> self@.finalizada(*current_time),
            r is Err ==> r == Err::<Vec<(AccountId, u32)>, VotacionError>(VotacionError::EleccionNoFinalizada),
            r matches Ok(v) ==> v@ == self@.votos,
    {
        self.get_votos(current_time)
    }
}

/// The position of the entry of `c` in the tally `v`, which names it.
fn posicion_en_votos(v: &Vec<(AccountId, u32)>, c: &AccountId) -> (r: usize)
    requires
        claves(v@).contains(*c),
    ensures
        r < v.len(),
        v@[r as int].0 == *c,
{
    let mut i: usize = 0;
    while i < v.len()
        invariant
            i <= v.len(),
            claves(v@).contains(*c),
            forall|j: int| 0 <= j < i ==> v@[j].0 != *c,
        decreases v.len() - i,
    {
        if v[i].0 == *c {
            return i;
        }
        i = i + 1;
    }
    proof {
        let k = choose|k: int| 0 <= k < claves(v@).len() && claves(v@)[k] == *c;
        assert(v@[k].0 != *c);
    }
    0
}

/// The count of the first entry of `c` in the tally `v`, zero when it has none.
fn votos_de_candidato(v: &Vec<(AccountId, u32)>, c: &AccountId) -> (r: u32)
    ensures
        r == votos_en(v@, *c),
{
    let mut i: usize = 0;
    assert(v@.subrange(0, v.len() as int) =~= v@);
    while i < v.len()
        invariant
            i <= v.len(),
            votos_en(v@, *c) == votos_en(v@.subrange(i as int, v.len() as int), *c),
        decreases v.len() - i,
    {
        assert(v@.subrange(i as int, v.len() as int).drop_first() =~= v@.subrange(i + 1, v.len() as int));
        if v[i].0 == *c {
            return v[i].1;
        }
        i = i + 1;
    }
    0
}

/// What a sequence of identities holds after removing one position.
pub proof fn lemma_remove_contiene(s: Seq<AccountId>, i: int)
    requires
        0 <= i < s.len(),
        s.no_duplicates(),
    ensures
        s.remove(i).no_duplicates(),
        forall|x: AccountId| #[trigger] s.remove(i).contains(x) <==> (s.contains(x) && x != s[i]),
{
    s.remove_ensures(i);
    assert forall|x: AccountId| #[trigger] s.remove(i).contains(x) <==> (s.contains(x) && x != s[i]) by {
        if s.remove(i).contains(x) {
            let k = choose|k: int| 0 <= k < s.remove(i).len() && s.remove(i)[k] == x;
            if k < i {
                assert(s[k] == x);
            } else {
                assert(s[k + 1] == x);
            }
        }
        if s.contains(x) && x != s[i] {
            let k = choose|k: int| 0 <= k < s.len() && s[k] == x;
            if k < i {
                assert(s.remove(i)[k] == x);
            } else {
                assert(s.remove(i)[k - 1] == x);
            }
        }
    }
}

/// What a sequence of identities holds after a push.
pub proof fn lemma_push_contiene(s: Seq<AccountId>, a: AccountId)
    ensures
        forall|x: AccountId| #[trigger] s.push(a).contains(x) <==> (s.contains(x) || x == a),
        !s.contains(a) && s.no_duplicates() ==> s.push(a).no_duplicates(),
{
    assert forall|x: AccountId| #[trigger] s.push(a).contains(x) <==> (s.contains(x) || x == a) by {
        if s.contains(x) {
            let i = choose|i: int| 0 <= i < s.len() && s[i] == x;
            assert(s.push(a)[i] == x);
        }
        if x == a {
            assert(s.push(a)[s.len() as int] == x);
        }
        if s.push(a).contains(x) {
            let i = choose|i: int| 0 <= i < s.len() + 1 && s.push(a)[i] == x;
            if i < s.len() {
                assert(s[i] == x);
            }
        }
    }
}


/// In a well-formed election an identity holds at most one of the four
/// roles: pending voter, pending candidate, accepted voter, accepted candidate.
pub proof fn lemma_exclusividad(e: EleccionView, id: AccountId)
    requires
        e.wf(),
    ensures
        !(e.votantes_sin_aceptar.contains(id) && e.candidatos_sin_aceptar.contains(id)),
        !(e.votantes_sin_aceptar.contains(id) && e.votantes.contains(id)),
        !(e.votantes_sin_aceptar.contains(id) && e.candidatos.contains(id)),
        !(e.candidatos_sin_aceptar.contains(id) && e.votantes.contains(id)),
        !(e.candidatos_sin_aceptar.contains(id) && e.candidatos.contains(id)),
        !(e.votantes.contains(id) && e.candidatos.contains(id)),
{
    reveal(EleccionView::wf);
}

/// The tally without its first entry names the remaining candidates.
proof fn lemma_claves_drop_first(s: Seq<(AccountId, u32)>)
    requires
        s.len() > 0,
    ensures
        claves(s.drop_first()) == claves(s).drop_first(),
{
    assert(claves(s.drop_first()) =~= claves(s).drop_first());
}

/// A candidate that the tally does not name has no votes.
proof fn lemma_votos_en_ausente(s: Seq<(AccountId, u32)>, x: AccountId)
    requires
        !claves(s).contains(x),
    ensures
        votos_en(s, x) == 0,
    decreases s.len(),
{
    if s.len() > 0 {
        assert(claves(s)[0] == s[0].0);
        lemma_claves_drop_first(s);
        if claves(s.drop_first()).contains(x) {
            let k = choose|k: int| 0 <= k < claves(s.drop_first()).len() && claves(s.drop_first())[k] == x;
            assert(claves(s)[k + 1] == x);
        }
        lemma_votos_en_ausente(s.drop_first(), x);
    }
}

/// Changing the count of the entry of `c` changes the votes of `c` alone.
proof fn lemma_votos_en_actualizar(s: Seq<(AccountId, u32)>, i: int, c: AccountId, n: u32, x: AccountId)
    requires
        claves(s).no_duplicates(),
        0 <= i < s.len(),
        s[i].0 == c,
    ensures
        votos_en(s.update(i, (c, n)), x) == if x == c {
            n
        } else {
            votos_en(s, x)
        },
    decreases s.len(),
{
    let t = s.update(i, (c, n));
    assert(t.drop_first() =~= if i == 0 {
        s.drop_first()
    } else {
        s.drop_first().update(i - 1, (c, n))
    });
    if i > 0 {
        assert(claves(s)[0] == s[0].0);
        assert(claves(s)[i] == c);
        lemma_claves_drop_first(s);
        lemma_votos_en_actualizar(s.drop_first(), i - 1, c, n, x);
    }
}

/// Appending an entry for a new candidate changes no other count.
proof fn lemma_votos_en_push(s: Seq<(AccountId, u32)>, p: (AccountId, u32), x: AccountId)
    requires
        !claves(s).contains(p.0),
    ensures
        votos_en(s.push(p), x) == if x == p.0 {
            p.1
        } else {
            votos_en(s, x)
        },
    decreases s.len(),
{
    if s.len() == 0 {
        assert(s.push(p).drop_first() =~= s);
    } else {
        assert(s.push(p).drop_first() =~= s.drop_first().push(p));
        assert(claves(s)[0] == s[0].0);
        lemma_claves_drop_first(s);
        if claves(s.drop_first()).contains(p.0) {
            let k = choose|k: int| 0 <= k < claves(s.drop_first()).len() && claves(s.drop_first())[k] == p.0;
            assert(claves(s)[k + 1] == p.0);
        }
        lemma_votos_en_push(s.drop_first(), p, x);
    }
}

/// A successful vote adds exactly one to the chosen candidate and leaves
/// every other count unchanged; tallies never decrease.
pub proof fn lemma_voto_suma_uno(
    e: EleccionView,
    votante: AccountId,
    candidato: AccountId,
    t: Fecha,
    x: AccountId,
)
    requires
        e.wf(),
        e.votantes_voto.len() < u32::MAX,
        e.error_votar(votante, candidato, t) is None,
    ensures
        e.con_voto(votante, candidato).votos_de(x) == e.votos_de(x) + if x == candidato {
            1int
        } else {
            0int
        },
{
    reveal(EleccionView::wf);
    let i = claves(e.votos).index_of(candidato);
    assert(claves(e.votos)[i] == candidato);
    assert(e.votos[i].1 <= e.votantes_voto.len());
    lemma_votos_en_actualizar(e.votos, i, candidato, (e.votos[i].1 + 1) as u32, x);
    lemma_votos_en_actualizar(e.votos, i, candidato, e.votos[i].1, candidato);
    assert(e.votos.update(i, (candidato, e.votos[i].1)) =~= e.votos);
}

/// Accepting a candidate gives it a count of zero and changes no other count.
pub proof fn lemma_aceptar_candidato_conserva_votos(e: EleccionView, id: AccountId, t: Fecha, x: AccountId)
    requires
        e.wf(),
        e.error_agregar_candidato(id, t) is None,
    ensures
        e.con_candidato_aceptado(id).votos_de(x) == e.votos_de(x),
        e.con_candidato_aceptado(id).votos_de(id) == 0,
{
    reveal(EleccionView::wf);
    lemma_votos_en_push(e.votos, (id, 0u32), x);
    lemma_votos_en_push(e.votos, (id, 0u32), id);
    if x == id {
        lemma_votos_en_ausente(e.votos, id);
    }
}

/// Once `votante` has voted successfully, every later vote of theirs in the
/// same election is refused, with `UsuarioYaVoto` whenever the election is
/// running and both identities hold their roles.
pub proof fn lemma_un_solo_voto(
    e: EleccionView,
    votante: AccountId,
    candidato: AccountId,
    t: Fecha,
    otro_candidato: AccountId,
    otro_t: Fecha,
)
    requires
        e.error_votar(votante, candidato, t) is None,
    ensures
        e.con_voto(votante, candidato).error_votar(votante, otro_candidato, otro_t) is Some,
        e.con_voto(votante, candidato).error_votar(votante, otro_candidato, otro_t) == Some(VotacionError::UsuarioYaVoto)
            <== !e.finalizada(otro_t) && e.iniciada(otro_t) && e.candidatos.contains(otro_candidato),
{
    let d = e.con_voto(votante, candidato);
    assert(d.votantes_voto[d.votantes_voto.len() - 1] == votante);
    assert(d.votantes_voto.contains(votante));
}

/// Phases gate every operation: before the start a vote is refused with
/// `EleccionNoIniciada`; after the end with `EleccionYaFinalizada`; once
/// started, nominations and approvals are refused with `EleccionYaIniciada`
/// until the end, and with `EleccionYaFinalizada` after it.
pub proof fn lemma_fases(e: EleccionView, id: AccountId, votante: AccountId, candidato: AccountId, t: Fecha)
    requires
        e.wf(),
    ensures
        e.fecha_inicio.posterior_a(t) ==> e.error_votar(votante, candidato, t) == Some(
            VotacionError::EleccionNoIniciada,
        ),
        t.posterior_a(e.fecha_fin) ==> e.error_votar(votante, candidato, t) == Some(
            VotacionError::EleccionYaFinalizada,
        ),
        !e.fecha_inicio.posterior_a(t) && !t.posterior_a(e.fecha_fin) ==> {
            &&& e.error_postulacion(id, t) == Some(VotacionError::EleccionYaIniciada)
            &&& e.error_agregar_candidato(id, t) == Some(VotacionError::EleccionYaIniciada)
            &&& e.error_agregar_votante(id, t) == Some(VotacionError::EleccionYaIniciada)
        },
        t.posterior_a(e.fecha_fin) ==> {
            &&& e.error_postulacion(id, t) == Some(VotacionError::EleccionYaFinalizada)
            &&& e.error_agregar_candidato(id, t) == Some(VotacionError::EleccionYaFinalizada)
            &&& e.error_agregar_votante(id, t) == Some(VotacionError::EleccionYaFinalizada)
        },
{
    reveal(EleccionView::wf);
}

} // verus!
