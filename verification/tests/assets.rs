use row666_metroidbrainia::assets::{atlas_files, texture_file, AssetLoader, AssetStorage};
use std::cell::Cell;

struct Lengths {
    calls: Cell<u32>,
}

impl AssetLoader<usize> for Lengths {
    type Error = String;

    fn load(&self, data: &str) -> Result<usize, String> {
        self.calls.set(self.calls.get() + 1);
        if data.is_empty() {
            Err(String::from("no name"))
        } else {
            Ok(data.len())
        }
    }
}

#[test]
fn an_asset_is_loaded_once() {
    let loader = Lengths { calls: Cell::new(0) };
    let mut storage: AssetStorage<usize> = AssetStorage::new();
    let first = storage.load("textures", &loader).unwrap();
    let second = storage.load("textures", &loader).unwrap();
    assert_eq!(*first, 8);
    assert!(std::rc::Rc::ptr_eq(&first, &second));
    assert_eq!(loader.calls.get(), 1);
}

#[test]
fn a_failure_is_passed_on_and_not_kept() {
    let loader = Lengths { calls: Cell::new(0) };
    let mut storage: AssetStorage<usize> = AssetStorage::new();
    assert_eq!(storage.load("", &loader), Err(String::from("no name")));
    assert!(storage.get("").is_none());
    assert_eq!(storage.load("", &loader), Err(String::from("no name")));
    assert_eq!(loader.calls.get(), 2);
}

#[test]
fn files_follow_the_naming_convention() {
    assert_eq!(texture_file("player"), "assets//textures/player.png");
    let files = atlas_files("textures");
    assert_eq!(files.sheet, "assets//textures/sheet_textures.png");
    assert_eq!(files.image, "assets//textures/textures.png");
    assert_eq!(files.description, "assets//textures/textures.json");
}
