use elevage::elevage::Elevage;
use elevage::elevage::IssueReproduction;
use elevage::elevage::index_interne;
use elevage::pokemon::Genre;
use elevage::pokemon::Pokemon;
use elevage::pokemon::PokemonType;

fn elevage_de(pokemons: Vec<Pokemon>) -> Elevage {
    let mut e = Elevage::new();
    for p in pokemons {
        e.ajouter_pokemon(p);
    }
    e
}

#[test]
fn reproduction_reussie_ajoute_mystere_en_fin() {
    let mut e = elevage_de(vec![
        Pokemon::new("A", 5, PokemonType::Feu, 0, Genre::Male),
        Pokemon::new("B", 5, PokemonType::Feu, 0, Genre::Femelle),
    ]);
    let issue = e.reproduction(0, 1);
    assert_eq!(issue, IssueReproduction::Reussie);
    assert_eq!(e.pokemons.len(), 3);
    let bebe = &e.pokemons[2];
    assert_eq!(bebe.nom, "Mystere");
    assert_eq!(bebe.niveau, 1);
    assert_eq!(bebe.p_type, PokemonType::Feu);
    assert_eq!(bebe.xp, 0);
    assert_eq!(bebe.genre, Genre::Male);
}

#[test]
fn reproduction_index_hors_bornes_ne_change_rien() {
    let mut e = elevage_de(vec![
        Pokemon::new("A", 5, PokemonType::Feu, 0, Genre::Male),
        Pokemon::new("B", 5, PokemonType::Feu, 0, Genre::Femelle),
    ]);
    let issue = e.reproduction(5, 0);
    assert_eq!(issue, IssueReproduction::IndexInvalide);
    assert_eq!(e.pokemons.len(), 2);
    assert_eq!(e.pokemons[0].nom, "A");
    assert_eq!(e.pokemons[1].nom, "B");
}

#[test]
fn reproduction_impossible_ne_change_rien() {
    let mut e = elevage_de(vec![
        Pokemon::new("A", 5, PokemonType::Feu, 0, Genre::Male),
        Pokemon::new("B", 5, PokemonType::Feu, 0, Genre::Male),
    ]);
    let issue = e.reproduction(0, 1);
    assert_eq!(issue, IssueReproduction::Impossible);
    assert_eq!(e.pokemons.len(), 2);
}

#[test]
fn entrainer_touche_chaque_pokemon_dans_l_ordre() {
    let mut e = elevage_de(vec![
        Pokemon::new("A", 1, PokemonType::Feu, 95, Genre::Male),
        Pokemon::new("B", 2, PokemonType::Eau, 0, Genre::Femelle),
        Pokemon::new("C", 3, PokemonType::Plante, 150, Genre::Male),
    ]);
    let annonces = e.entrainer(110);
    assert_eq!(e.pokemons[0].niveau, 3);
    assert_eq!(e.pokemons[0].xp, 5);
    assert_eq!(e.pokemons[1].niveau, 3);
    assert_eq!(e.pokemons[1].xp, 10);
    assert_eq!(e.pokemons[2].niveau, 5);
    assert_eq!(e.pokemons[2].xp, 60);
    let paires: Vec<(String, u32)> =
        annonces.iter().map(|a| (a.nom.clone(), a.niveau)).collect();
    assert_eq!(
        paires,
        vec![
            ("A".to_string(), 2),
            ("A".to_string(), 3),
            ("B".to_string(), 3),
            ("C".to_string(), 4),
            ("C".to_string(), 5),
        ]
    );
}

#[test]
fn tri_par_niveau_est_stable() {
    let mut e = elevage_de(vec![
        Pokemon::new("A", 9, PokemonType::Feu, 0, Genre::Male),
        Pokemon::new("B", 1, PokemonType::Eau, 0, Genre::Male),
        Pokemon::new("C", 9, PokemonType::Plante, 0, Genre::Male),
        Pokemon::new("D", 1, PokemonType::Electrik, 0, Genre::Male),
    ]);
    e.trier_par_niveau();
    let noms: Vec<&str> = e.pokemons.iter().map(|p| p.nom.as_str()).collect();
    assert_eq!(noms, vec!["B", "D", "A", "C"]);
}

#[test]
fn tri_par_niveau_est_idempotent() {
    let mut e = elevage_de(vec![
        Pokemon::new("A", 3, PokemonType::Feu, 0, Genre::Male),
        Pokemon::new("B", 1, PokemonType::Eau, 0, Genre::Male),
        Pokemon::new("C", 3, PokemonType::Plante, 0, Genre::Male),
        Pokemon::new("D", 2, PokemonType::Electrik, 0, Genre::Male),
    ]);
    e.trier_par_niveau();
    let apres_un_tri: Vec<String> = e.pokemons.iter().map(|p| p.nom.clone()).collect();
    e.trier_par_niveau();
    let apres_deux_tris: Vec<String> = e.pokemons.iter().map(|p| p.nom.clone()).collect();
    assert_eq!(apres_un_tri, apres_deux_tris);
}

#[test]
fn tri_par_type_suit_l_ordre_des_types_et_reste_stable() {
    let mut e = elevage_de(vec![
        Pokemon::new("A", 1, PokemonType::Electrik, 0, Genre::Male),
        Pokemon::new("B", 2, PokemonType::Plante, 0, Genre::Male),
        Pokemon::new("C", 3, PokemonType::Feu, 0, Genre::Male),
        Pokemon::new("D", 4, PokemonType::Eau, 0, Genre::Male),
        Pokemon::new("E", 5, PokemonType::Feu, 0, Genre::Male),
    ]);
    e.trier_par_type();
    let noms: Vec<&str> = e.pokemons.iter().map(|p| p.nom.as_str()).collect();
    assert_eq!(noms, vec!["C", "E", "D", "B", "A"]);
}

#[test]
fn tri_par_type_est_idempotent() {
    let mut e = elevage_de(vec![
        Pokemon::new("A", 1, PokemonType::Plante, 0, Genre::Male),
        Pokemon::new("B", 2, PokemonType::Feu, 0, Genre::Male),
        Pokemon::new("C", 3, PokemonType::Plante, 0, Genre::Male),
    ]);
    e.trier_par_type();
    let apres_un_tri: Vec<String> = e.pokemons.iter().map(|p| p.nom.clone()).collect();
    e.trier_par_type();
    let apres_deux_tris: Vec<String> = e.pokemons.iter().map(|p| p.nom.clone()).collect();
    assert_eq!(apres_un_tri, apres_deux_tris);
}

#[test]
fn serialisation_d_un_elevage_vide_est_vide() {
    let e = Elevage::new();
    assert_eq!(e.serialiser(), "");
}

#[test]
fn serialisation_exacte() {
    let e = elevage_de(vec![
        Pokemon::new("Pika", 12, PokemonType::Electrik, 34, Genre::Male),
        Pokemon::new("Bulbi", 5, PokemonType::Plante, 0, Genre::Femelle),
    ]);
    assert_eq!(
        e.serialiser(),
        "Nom   : Pika\nNiveau: 12\nType  : Electrik\nXP    : 34\nGenre : Male\n\n\
         Nom   : Bulbi\nNiveau: 5\nType  : Plante\nXP    : 0\nGenre : Femelle\n\n"
    );
}

#[test]
fn affichage_exact() {
    let e = elevage_de(vec![
        Pokemon::new("Pika", 12, PokemonType::Electrik, 34, Genre::Male),
        Pokemon::new("Bulbi", 5, PokemonType::Plante, 0, Genre::Femelle),
    ]);
    assert_eq!(
        e.affichage(),
        "=== Pokemon 1 ===\n\
         Nom   : Pika\nNiveau: 12\nType  : Electrik\nXP    : 34\nGenre : Male\n\
         ----------------------\n\
         === Pokemon 2 ===\n\
         Nom   : Bulbi\nNiveau: 5\nType  : Plante\nXP    : 0\nGenre : Femelle\n\
         ----------------------\n"
    );
}

#[test]
fn affichage_d_un_elevage_vide_est_vide() {
    let e = Elevage::new();
    assert_eq!(e.affichage(), "");
}

#[test]
fn indices_saisis_commencent_a_un() {
    assert_eq!(index_interne(0), None);
    assert_eq!(index_interne(1), Some(0));
    assert_eq!(index_interne(5), Some(4));
}
