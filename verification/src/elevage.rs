//! The collection that owns the creatures: creatures are only ever appended,
//! trained all at once, bred by index, sorted, and rendered as text for
//! display or for the save file.

use vstd::prelude::*;
use vstd::string::StringExecFns;
use crate::pokemon::Genre;
use crate::pokemon::Pokemon;
use crate::pokemon::entraine_vers;
use crate::pokemon::fiche_texte;
use crate::pokemon::gain_possible;
use crate::pokemon::peut_se_reproduire;
use crate::texte::texte_decimal;
use crate::texte::texte_nombre;
use crate::tri::Critere;
use crate::tri::lemma_tri_stable_permutation;
use crate::tri::lemma_tri_stable_trie;
use crate::tri::tri_stable;
use crate::tri::trie_par;
use crate::tri::trier;

verus! {

/// An ordered collection of creatures; insertion order is significant for
/// display and for indexing.
pub struct Elevage {
    pub pokemons: Vec<Pokemon>,
}

/// How a breeding attempt on the collection ended.
#[derive(Debug, PartialEq, Eq, Structural, Clone, Copy)]
pub enum IssueReproduction {
    /// Both indices were in bounds and the pair was eligible: the offspring
    /// was appended to the collection.
    Reussie,
    /// Both indices were in bounds but the pair was not eligible; the
    /// collection is unchanged.
    Impossible,
    /// An index was out of bounds; the collection is unchanged.
    IndexInvalide,
}

/// A level-up announcement: the named creature reached the given level.
pub struct Annonce {
    pub nom: String,
    pub niveau: u32,
}

/// Every creature of the collection can take `points` experience without
/// overflowing its counters.
pub open spec fn entrainement_possible(ps: Seq<Pokemon>, points: u32) -> bool {
    forall|i: int| 0 <= i < ps.len() ==> gain_possible(#[trigger] ps[i], points)
}

/// The announcements, read as pairs of name and level, are exactly the
/// expected ones, in the same order.
pub open spec fn annonces_conformes(annonces: Seq<Annonce>, attendu: Seq<(Seq<char>, u32)>) -> bool {
    &&& annonces.len() == attendu.len()
    &&& forall|i: int|
        0 <= i < annonces.len() ==> ((#[trigger] annonces[i]).nom@, annonces[i].niveau)
            == attendu[i]
}

/// The level-up announcements one creature makes while training.
pub open spec fn annonces_pokemon(p: Pokemon, points: u32) -> Seq<(Seq<char>, u32)> {
    Seq::new(((p.xp + points) / 100) as nat, |j: int| (p.nom@, (p.niveau + 1 + j) as u32))
}

/// The announcements of the whole collection, creature by creature in
/// collection order.
pub open spec fn annonces_elevage(ps: Seq<Pokemon>, points: u32) -> Seq<(Seq<char>, u32)>
    decreases ps.len(),
{
    if ps.len() == 0 {
        Seq::empty()
    } else {
        annonces_elevage(ps.drop_last(), points) + annonces_pokemon(ps.last(), points)
    }
}

/// The save-file text: one card per creature, a blank line after each.
pub open spec fn sauvegarde_texte(ps: Seq<Pokemon>) -> Seq<char>
    decreases ps.len(),
{
    if ps.len() == 0 {
        Seq::empty()
    } else {
        sauvegarde_texte(ps.drop_last()) + fiche_texte(ps.last()) + "\n"@
    }
}

/// The display text: each card under a 1-based header, a separator after.
pub open spec fn affichage_texte(ps: Seq<Pokemon>) -> Seq<char>
    decreases ps.len(),
{
    if ps.len() == 0 {
        Seq::empty()
    } else {
        affichage_texte(ps.drop_last()) + "=== Pokemon "@ + texte_decimal(ps.len()) + " ===\n"@
            + fiche_texte(ps.last()) + "----------------------\n"@
    }
}

/// Turns a 1-based index typed by the user into a 0-based position; the
/// index 0 has no position.
pub fn index_interne(saisie: usize) -> (r: Option<usize>)
    ensures
        saisie == 0 <==> r is None,
        r matches Some(i) ==> i == saisie - 1,
{
    if saisie == 0 {
        None
    } else {
        Some(saisie - 1)
    }
}

impl Elevage {
    /// An empty collection.
    pub fn new() -> (e: Elevage)
        ensures
            e.pokemons@.len() == 0,
    {
        Elevage { pokemons: Vec::new() }
    }

    /// Appends a creature at the end; always succeeds.
    pub fn ajouter_pokemon(&mut self, pokemon: Pokemon)
        ensures
            final(self).pokemons@ == old(self).pokemons@.push(pokemon),
    {
        self.pokemons.push(pokemon);
    }

    /// Trains every creature in collection order: each gains `points`
    /// experience, and the level-up announcements of all of them come back
    /// in the order they were made.
    pub fn entrainer(&mut self, points: u32) -> (annonces: Vec<Annonce>)
        requires
            entrainement_possible(old(self).pokemons@, points),
        ensures
            final(self).pokemons@.len() == old(self).pokemons@.len(),
            forall|i: int|
                0 <= i < old(self).pokemons@.len() ==> entraine_vers(
                    old(self).pokemons@[i],
                    #[trigger] final(self).pokemons@[i],
                    points,
                ),
            annonces_conformes(annonces@, annonces_elevage(old(self).pokemons@, points)),
    {
        let ghost avant: Seq<Pokemon> = self.pokemons@;
        let mut faits: Vec<Pokemon> = Vec::new();
        let mut annonces: Vec<Annonce> = Vec::new();
        while self.pokemons.len() > 0
            invariant
                avant == old(self).pokemons@,
                entrainement_possible(avant, points),
                faits@.len() + self.pokemons@.len() == avant.len(),
                self.pokemons@ == avant.skip(faits@.len() as int),
                forall|i: int|
                    0 <= i < faits@.len() ==> entraine_vers(avant[i], #[trigger] faits@[i], points),
                annonces_conformes(
                    annonces@,
                    annonces_elevage(avant.take(faits@.len() as int), points),
                ),
            decreases self.pokemons@.len(),
        {
            let ghost k: int = faits@.len() as int;
            let mut p = self.pokemons.remove(0);
            proof {
                assert(p == avant[k]);
                assert(self.pokemons@ =~= avant.skip(k + 1));
            }
            let niveaux = p.gagner_xp(points);
            let mut j: usize = 0;
            while j < niveaux.len()
                invariant
                    j <= niveaux@.len(),
                    p.nom == avant[k].nom,
                    0 <= k < avant.len(),
                    niveaux@ == crate::pokemon::niveaux_annonces(avant[k], points),
                    annonces_conformes(
                        annonces@,
                        annonces_elevage(avant.take(k), points) + annonces_pokemon(
                            avant[k],
                            points,
                        ).take(j as int),
                    ),
                decreases niveaux@.len() - j,
            {
                let ghost deja = annonces@;
                let annonce = Annonce { nom: p.nom.clone(), niveau: niveaux[j] };
                proof {
                    assert(annonce.nom@ == avant[k].nom@);
                    assert(annonce.niveau == niveaux@[j as int]);
                }
                annonces.push(annonce);
                proof {
                    let ap = annonces_pokemon(avant[k], points);
                    assert(annonces@ == deja.push(annonce));
                    assert((annonce.nom@, annonce.niveau) == ap[j as int]);
                    assert(annonces_elevage(avant.take(k), points) + ap.take(j + 1)
                        =~= (annonces_elevage(avant.take(k), points) + ap.take(j as int)).push(
                        ap[j as int],
                    ));
                    assert(annonces_conformes(
                        annonces@,
                        annonces_elevage(avant.take(k), points) + ap.take(j + 1),
                    ));
                }
                j = j + 1;
            }
            faits.push(p);
            proof {
                assert(annonces_pokemon(avant[k], points).take(niveaux@.len() as int)
                    =~= annonces_pokemon(avant[k], points));
                assert(avant.take(k + 1).drop_last() =~= avant.take(k));
                assert(avant.take(k + 1).last() == avant[k]);
                assert(annonces_elevage(avant.take(k + 1), points) =~= annonces_elevage(
                    avant.take(k),
                    points,
                ) + annonces_pokemon(avant[k], points));
            }
        }
        self.pokemons = faits;
        proof {
            assert(avant.take(avant.len() as int) =~= avant);
        }
        annonces
    }

    /// Breeds the creatures at the two 0-based positions. Out-of-bounds
    /// positions leave the collection unchanged, as does an ineligible pair;
    /// a successful breeding appends the offspring at the end.
    pub fn reproduction(&mut self, index1: usize, index2: usize) -> (issue: IssueReproduction)
        ensures
            ({
                let avant = old(self).pokemons@;
                let apres = final(self).pokemons@;
                &&& (index1 >= avant.len() || index2 >= avant.len()) ==> issue
                    == IssueReproduction::IndexInvalide && apres == avant
                &&& (index1 < avant.len() && index2 < avant.len() && !peut_se_reproduire(
                    avant[index1 as int],
                    avant[index2 as int],
                )) ==> issue == IssueReproduction::Impossible && apres == avant
                &&& (index1 < avant.len() && index2 < avant.len() && peut_se_reproduire(
                    avant[index1 as int],
                    avant[index2 as int],
                )) ==> {
                    &&& issue == IssueReproduction::Reussie
                    &&& apres.len() == avant.len() + 1
                    &&& apres.drop_last() == avant
                    &&& apres.last().nom@ == "Mystere"@
                    &&& apres.last().niveau == 1
                    &&& apres.last().p_type == avant[index1 as int].p_type
                    &&& apres.last().xp == 0
                    &&& apres.last().genre == Genre::Male
                }
            }),
    {
        if index1 < self.pokemons.len() && index2 < self.pokemons.len() {
            let nouveau = self.pokemons[index1].reproduction(&self.pokemons[index2]);
            match nouveau {
                Some(bebe) => {
                    self.pokemons.push(bebe);
                    proof {
                        assert(final(self).pokemons@.drop_last() =~= old(self).pokemons@);
                    }
                    IssueReproduction::Reussie
                },
                None => IssueReproduction::Impossible,
            }
        } else {
            IssueReproduction::IndexInvalide
        }
    }

    /// Sorts the creatures by ascending level, stably: creatures of equal
    /// level keep their prior relative order.
    pub fn trier_par_niveau(&mut self)
        ensures
            final(self).pokemons@ == tri_stable(old(self).pokemons@, Critere::Niveau),
            trie_par(final(self).pokemons@, Critere::Niveau),
            final(self).pokemons@.to_multiset() == old(self).pokemons@.to_multiset(),
    {
        trier(&mut self.pokemons, Critere::Niveau);
        proof {
            lemma_tri_stable_trie(old(self).pokemons@, Critere::Niveau);
            lemma_tri_stable_permutation(old(self).pokemons@, Critere::Niveau);
        }
    }

    /// Sorts the creatures by ascending kind order (Feu < Eau < Plante <
    /// Electrik), stably: creatures of the same kind keep their prior
    /// relative order.
    pub fn trier_par_type(&mut self)
        ensures
            final(self).pokemons@ == tri_stable(old(self).pokemons@, Critere::Type),
            trie_par(final(self).pokemons@, Critere::Type),
            final(self).pokemons@.to_multiset() == old(self).pokemons@.to_multiset(),
    {
        trier(&mut self.pokemons, Critere::Type);
        proof {
            lemma_tri_stable_trie(old(self).pokemons@, Critere::Type);
            lemma_tri_stable_permutation(old(self).pokemons@, Critere::Type);
        }
    }

    /// Writes the save-file text: an empty collection gives empty text.
    pub fn serialiser(&self) -> (r: String)
        ensures
            r@ == sauvegarde_texte(self.pokemons@),
            self.pokemons@.len() == 0 ==> r@.len() == 0,
    {
        let mut r = String::new();
        let mut i: usize = 0;
        while i < self.pokemons.len()
            invariant
                i <= self.pokemons@.len(),
                r@ == sauvegarde_texte(self.pokemons@.take(i as int)),
            decreases self.pokemons@.len() - i,
        {
            let fiche = self.pokemons[i].fiche();
            r.append(fiche.as_str());
            r.append("\n");
            proof {
                assert(self.pokemons@.take(i + 1).drop_last() =~= self.pokemons@.take(i as int));
                assert(self.pokemons@.take(i + 1).last() == self.pokemons@[i as int]);
                assert(r@ =~= sauvegarde_texte(self.pokemons@.take(i + 1)));
            }
            i = i + 1;
        }
        proof {
            assert(self.pokemons@.take(self.pokemons@.len() as int) =~= self.pokemons@);
        }
        r
    }

    /// Writes the display text: each creature's card under its 1-based
    /// header, a separator line after each card.
    pub fn affichage(&self) -> (r: String)
        ensures
            r@ == affichage_texte(self.pokemons@),
    {
        let mut r = String::new();
        let mut i: usize = 0;
        while i < self.pokemons.len()
            invariant
                i <= self.pokemons@.len(),
                r@ == affichage_texte(self.pokemons@.take(i as int)),
            decreases self.pokemons@.len() - i,
        {
            r.append("=== Pokemon ");
            let numero = texte_nombre((i + 1) as u64);
            r.append(numero.as_str());
            r.append(" ===\n");
            let fiche = self.pokemons[i].fiche();
            r.append(fiche.as_str());
            r.append("----------------------\n");
            proof {
                assert(self.pokemons@.take(i + 1).drop_last() =~= self.pokemons@.take(i as int));
                assert(self.pokemons@.take(i + 1).last() == self.pokemons@[i as int]);
                assert(self.pokemons@.take(i + 1).len() == i + 1);
                assert(r@ =~= affichage_texte(self.pokemons@.take(i + 1)));
            }
            i = i + 1;
        }
        proof {
            assert(self.pokemons@.take(self.pokemons@.len() as int) =~= self.pokemons@);
        }
        r
    }
}

} // verus!
