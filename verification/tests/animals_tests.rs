//! The menagerie: names, noises, shearing, and dispatch through the
//! object-safe proxy.

use ocaml_rs_smartptr::animals::{Animal, AnimalProxy, Sheep, SheepWrapper, Wolf};

#[test]
fn sheep_noise_changes_after_shearing() {
    let mut sheep = Sheep::new(String::from("Dolly"));
    assert!(!sheep.is_naked());
    assert_eq!(Animal::noise(&sheep), "baaaaah!");
    let line = sheep.shear();
    assert_eq!(line, "Dolly gets a haircut!");
    assert!(sheep.is_naked());
    assert_eq!(Animal::noise(&sheep), "baaaaah?");
    let line = sheep.shear();
    assert_eq!(line, "Dolly is already naked...");
    assert!(sheep.is_naked());
}

#[test]
fn sheep_talks_with_a_pause() {
    let sheep = Sheep::new(String::from("Dolly"));
    assert_eq!(Animal::talk(&sheep), "Dolly pauses briefly... baaaaah!");
    assert_eq!(Animal::name(&sheep), "Dolly");
}

#[test]
fn wolf_talks_plainly() {
    let mut wolf = Wolf::new(String::from("Ragnar"));
    assert_eq!(Animal::name(&wolf), "Ragnar");
    assert_eq!(Animal::noise(&wolf), "rrrrrr!");
    assert_eq!(Animal::talk(&wolf), "Ragnar says rrrrrr!");
    wolf.set_hungry(true);
    assert_eq!(Animal::noise(&wolf), "rrrrrr!");
}

#[test]
fn proxy_dispatches_to_the_animal() {
    let sheep = Sheep::new(String::from("Shaun"));
    let proxy: &dyn AnimalProxy = &sheep;
    assert_eq!(proxy.name(), "Shaun");
    assert_eq!(proxy.noise(), "baaaaah!");
    assert_eq!(proxy.talk(), "Shaun pauses briefly... baaaaah!");
}

#[test]
fn wrapper_hands_out_the_inner_sheep() {
    let wrapper = SheepWrapper(Sheep::new(String::from("Inner")));
    assert_eq!(wrapper.sheep().is_naked(), false);
    assert_eq!(Animal::name(wrapper.sheep()), "Inner");
}
