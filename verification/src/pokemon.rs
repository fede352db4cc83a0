//! The creature itself: its kind, its gender, its attributes, the
//! experience-gain rule and the breeding rule.

use vstd::prelude::*;
use vstd::string::StringExecFns;
use crate::texte::texte_decimal;
use crate::texte::texte_nombre;

verus! {

/// The four kinds a creature can have; sorting by kind follows this order
/// (Feu < Eau < Plante < Electrik).
#[derive(Debug, PartialEq, Eq, Structural, Clone, Copy)]
pub enum PokemonType {
    Feu,
    Eau,
    Plante,
    Electrik,
}

/// The two genders a creature can have.
#[derive(Debug, PartialEq, Eq, Structural, Clone, Copy)]
pub enum Genre {
    Male,
    Femelle,
}

/// Rank of a kind in the fixed sorting order.
pub open spec fn rang_type(t: PokemonType) -> int {
    match t {
        PokemonType::Feu => 0,
        PokemonType::Eau => 1,
        PokemonType::Plante => 2,
        PokemonType::Electrik => 3,
    }
}

/// Textual name of a kind.
pub open spec fn texte_type(t: PokemonType) -> Seq<char> {
    match t {
        PokemonType::Feu => "Feu"@,
        PokemonType::Eau => "Eau"@,
        PokemonType::Plante => "Plante"@,
        PokemonType::Electrik => "Electrik"@,
    }
}

/// Textual name of a gender.
pub open spec fn texte_genre(g: Genre) -> Seq<char> {
    match g {
        Genre::Male => "Male"@,
        Genre::Femelle => "Femelle"@,
    }
}

impl PokemonType {
    /// The kind's name, as written on a creature's card and in the save file.
    pub fn nom(&self) -> (r: &'static str)
        ensures
            r@ == texte_type(*self),
    {
        match self {
            PokemonType::Feu => "Feu",
            PokemonType::Eau => "Eau",
            PokemonType::Plante => "Plante",
            PokemonType::Electrik => "Electrik",
        }
    }

    /// The kind's rank in the fixed sorting order.
    pub fn rang(&self) -> (r: u32)
        ensures
            r as int == rang_type(*self),
    {
        match self {
            PokemonType::Feu => 0,
            PokemonType::Eau => 1,
            PokemonType::Plante => 2,
            PokemonType::Electrik => 3,
        }
    }
}

impl Genre {
    /// The gender's name, as written on a creature's card and in the save file.
    pub fn nom(&self) -> (r: &'static str)
        ensures
            r@ == texte_genre(*self),
    {
        match self {
            Genre::Male => "Male",
            Genre::Femelle => "Femelle",
        }
    }
}

/// The kind picked by a numbered menu choice; any choice outside 1 to 4
/// falls back to Feu, and the flag says whether the choice was recognised.
pub fn type_depuis_choix(choix: u32) -> (r: (PokemonType, bool))
    ensures
        choix == 1 ==> r.0 == PokemonType::Feu,
        choix == 2 ==> r.0 == PokemonType::Eau,
        choix == 3 ==> r.0 == PokemonType::Plante,
        choix == 4 ==> r.0 == PokemonType::Electrik,
        !(1 <= choix <= 4) ==> r.0 == PokemonType::Feu,
        r.1 <==> 1 <= choix <= 4,
{
    match choix {
        1 => (PokemonType::Feu, true),
        2 => (PokemonType::Eau, true),
        3 => (PokemonType::Plante, true),
        4 => (PokemonType::Electrik, true),
        _ => (PokemonType::Feu, false),
    }
}

/// The gender picked by a numbered menu choice; any choice outside 1 and 2
/// falls back to Male, and the flag says whether the choice was recognised.
pub fn genre_depuis_choix(choix: u32) -> (r: (Genre, bool))
    ensures
        choix == 1 ==> r.0 == Genre::Male,
        choix == 2 ==> r.0 == Genre::Femelle,
        !(1 <= choix <= 2) ==> r.0 == Genre::Male,
        r.1 <==> 1 <= choix <= 2,
{
    match choix {
        1 => (Genre::Male, true),
        2 => (Genre::Femelle, true),
        _ => (Genre::Male, false),
    }
}

/// A creature: a name, a level, a kind, experience points and a gender.
#[derive(Debug)]
pub struct Pokemon {
    pub nom: String,
    pub niveau: u32,
    pub p_type: PokemonType,
    pub xp: u32,
    pub genre: Genre,
}

/// Minimum level both partners need before they can breed.
pub const NIVEAU_MIN_REPRODUCTION: u32 = 5;

/// Two creatures can breed when they share a kind, both are at least at the
/// minimum level, and their genders differ.
pub open spec fn peut_se_reproduire(a: Pokemon, b: Pokemon) -> bool {
    &&& a.p_type == b.p_type
    &&& a.niveau >= NIVEAU_MIN_REPRODUCTION
    &&& b.niveau >= NIVEAU_MIN_REPRODUCTION
    &&& a.genre != b.genre
}

/// What one round of training does to a creature: experience and points are
/// pooled, every full hundred becomes one level, and the rest stays as
/// experience; name, kind and gender are untouched.
pub open spec fn entraine_vers(avant: Pokemon, apres: Pokemon, points: u32) -> bool {
    &&& apres.nom == avant.nom
    &&& apres.p_type == avant.p_type
    &&& apres.genre == avant.genre
    &&& apres.niveau as int == avant.niveau + (avant.xp + points) / 100
    &&& apres.xp as int == (avant.xp + points) % 100
}

/// The levels announced while a creature gains `points` experience: one
/// announcement per level gained, in ascending order.
pub open spec fn niveaux_annonces(avant: Pokemon, points: u32) -> Seq<u32> {
    Seq::new(((avant.xp + points) / 100) as nat, |j: int| (avant.niveau + 1 + j) as u32)
}

/// The creature can gain `points` experience without its counters
/// overflowing their machine width.
pub open spec fn gain_possible(p: Pokemon, points: u32) -> bool {
    &&& p.xp + points <= u32::MAX
    &&& p.niveau + (p.xp + points) / 100 <= u32::MAX
}

impl Pokemon {
    pub fn new(nom: &str, niveau: u32, p_type: PokemonType, xp: u32, genre: Genre) -> (p: Pokemon)
        ensures
            p.nom@ == nom@,
            p.niveau == niveau,
            p.p_type == p_type,
            p.xp == xp,
            p.genre == genre,
    {
        Pokemon { nom: nom.to_owned(), niveau, p_type, xp, genre }
    }

    pub fn peuvent_se_reproduire(&self, autre: &Pokemon) -> (r: bool)
        ensures
            r == peut_se_reproduire(*self, *autre),
    {
        self.p_type == autre.p_type && self.niveau >= NIVEAU_MIN_REPRODUCTION
            && autre.niveau >= NIVEAU_MIN_REPRODUCTION && self.genre != autre.genre
    }

    /// Gains experience: points pool with the current experience, every full
    /// hundred becomes one level, the remainder stays as experience. Returns
    /// the levels reached on the way, one announcement per level gained.
    pub fn gagner_xp(&mut self, points: u32) -> (annonces: Vec<u32>)
        requires
            gain_possible(*old(self), points),
        ensures
            entraine_vers(*old(self), *final(self), points),
            annonces@ == niveaux_annonces(*old(self), points),
    {
        let ghost total: int = old(self).xp + points;
        self.xp = self.xp + points;
        let mut annonces: Vec<u32> = Vec::new();
        while self.xp >= 100
            invariant
                total == old(self).xp + points,
                total <= u32::MAX,
                old(self).niveau + total / 100 <= u32::MAX,
                self.nom == old(self).nom,
                self.p_type == old(self).p_type,
                self.genre == old(self).genre,
                old(self).niveau <= self.niveau,
                self.xp + 100 * (self.niveau - old(self).niveau) == total,
                self.niveau - old(self).niveau <= total / 100,
                annonces@ == Seq::new(
                    (self.niveau - old(self).niveau) as nat,
                    |j: int| (old(self).niveau + 1 + j) as u32,
                ),
            decreases self.xp,
        {
            proof {
                let gagnes = self.niveau - old(self).niveau;
                assert(100 * (gagnes + 1) <= total);
                vstd::arithmetic::div_mod::lemma_div_is_ordered(100 * (gagnes + 1), total, 100);
                vstd::arithmetic::div_mod::lemma_div_multiples_vanish(gagnes + 1, 100);
                assert(gagnes + 1 <= total / 100);
            }
            self.xp = self.xp - 100;
            self.niveau = self.niveau + 1;
            annonces.push(self.niveau);
            proof {
                assert(annonces@ =~= Seq::new(
                    (self.niveau - old(self).niveau) as nat,
                    |j: int| (old(self).niveau + 1 + j) as u32,
                ));
            }
        }
        proof {
            vstd::arithmetic::div_mod::lemma_fundamental_div_mod_converse(
                total,
                100,
                self.niveau - old(self).niveau,
                self.xp as int,
            );
            assert(annonces@ =~= niveaux_annonces(*old(self), points));
        }
        annonces
    }

    /// Breeding: when the pair is eligible, the offspring is named "Mystere",
    /// starts at level 1 with no experience, takes `self`'s kind, and is
    /// always male; otherwise there is no offspring.
    pub fn reproduction(&self, autre: &Pokemon) -> (r: Option<Pokemon>)
        ensures
            r is Some <==> peut_se_reproduire(*self, *autre),
            r matches Some(b) ==> {
                &&& b.nom@ == "Mystere"@
                &&& b.niveau == 1
                &&& b.p_type == self.p_type
                &&& b.xp == 0
                &&& b.genre == Genre::Male
            },
    {
        if self.peuvent_se_reproduire(autre) {
            Some(Pokemon::new("Mystere", 1, self.p_type, 0, Genre::Male))
        } else {
            None
        }
    }
}

/// The creature's card: its five attributes, one labelled line each.
pub open spec fn fiche_texte(p: Pokemon) -> Seq<char> {
    "Nom   : "@ + p.nom@ + "\n"@ + "Niveau: "@ + texte_decimal(p.niveau as nat) + "\n"@
        + "Type  : "@ + texte_type(p.p_type) + "\n"@ + "XP    : "@ + texte_decimal(p.xp as nat)
        + "\n"@ + "Genre : "@ + texte_genre(p.genre) + "\n"@
}

impl Pokemon {
    /// Writes the creature's card.
    pub fn fiche(&self) -> (r: String)
        ensures
            r@ == fiche_texte(*self),
    {
        let mut r = String::new();
        r.append("Nom   : ");
        r.append(self.nom.as_str());
        r.append("\n");
        r.append("Niveau: ");
        let niveau = texte_nombre(self.niveau as u64);
        r.append(niveau.as_str());
        r.append("\n");
        r.append("Type  : ");
        r.append(self.p_type.nom());
        r.append("\n");
        r.append("XP    : ");
        let xp = texte_nombre(self.xp as u64);
        r.append(xp.as_str());
        r.append("\n");
        r.append("Genre : ");
        r.append(self.genre.nom());
        r.append("\n");
        proof {
            assert(r@ =~= fiche_texte(*self));
        }
        r
    }
}

/// Breeding eligibility is symmetric: it reads the same of both partners.
pub proof fn lemma_reproduction_symetrique(a: Pokemon, b: Pokemon)
    ensures
        peut_se_reproduire(a, b) == peut_se_reproduire(b, a),
{
}

/// A creature can never breed with itself: its gender equals its own gender,
/// so the gender-difference requirement fails.
pub proof fn lemma_pas_d_auto_reproduction(a: Pokemon)
    ensures
        !peut_se_reproduire(a, a),
{
}

} // verus!
