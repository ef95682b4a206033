//! Assets loaded once and shared from then on, and where their files lie.

use std::rc::Rc;
use vstd::prelude::*;
use vstd::string::StringExecFns;
use crate::name_map::NameMap;
use crate::shared::share;

verus! {

/// What can load an asset from its name.
pub trait AssetLoader<R> {
    type Error;

    fn load(&self, data: &str) -> Result<R, Self::Error>;
}

/// Assets by name. Each is loaded when it is first asked for, and the one
/// value is handed to everyone who asks.
pub struct AssetStorage<R> {
    cache: NameMap<Rc<R>>,
}

impl<R> View for AssetStorage<R> {
    type V = Map<Seq<char>, R>;

    closed spec fn view(&self) -> Map<Seq<char>, R> {
        self.cache@.map_values(|asset: Rc<R>| *asset)
    }
}

/// The assets held once the outcome of loading `name` has been filed: the
/// asset is kept, a failure leaves no trace.
pub open spec fn filed<R, E>(before: Map<Seq<char>, R>, name: Seq<char>, outcome: Result<R, E>) -> Map<
    Seq<char>,
    R,
> {
    match outcome {
        Ok(asset) => before.insert(name, asset),
        Err(_) => before,
    }
}

/// Whether `handed` passes on what loading ended in: the asset itself, or
/// the loader's own error.
pub open spec fn passes_on<R, E>(handed: Result<Rc<R>, E>, outcome: Result<R, E>) -> bool {
    match (handed, outcome) {
        (Ok(shared), Ok(asset)) => *shared == asset,
        (Err(told), Err(error)) => told == error,
        _ => false,
    }
}

impl<R> AssetStorage<R> {
    pub fn new() -> (storage: Self)
        ensures
            storage@ == Map::<Seq<char>, R>::empty(),
    {
        let storage = AssetStorage { cache: NameMap::new() };
        assert(storage@ =~= Map::<Seq<char>, R>::empty());
        storage
    }

    /// The asset of that name, if it has been loaded.
    pub fn get(&self, details: &str) -> (found: Option<Rc<R>>)
        ensures
            match found {
                Some(asset) => self@.contains_key(details@) && *asset == self@[details@],
                None => !self@.contains_key(details@),
            },
    {
        match self.cache.get(details) {
            Some(asset) => Some(share(asset)),
            None => None,
        }
    }

    /// Files what loading `details` ended in, and passes it on.
    pub fn store<E>(&mut self, details: &str, outcome: Result<R, E>) -> (handed: Result<Rc<R>, E>)
        ensures
            final(self)@ == filed(old(self)@, details@, outcome),
            passes_on(handed, outcome),
    {
        match outcome {
            Ok(asset) => {
                let resource = Rc::new(asset);
                self.cache.insert(details.to_owned(), share(&resource));
                assert(self@ =~= old(self)@.insert(details@, asset));
                Ok(resource)
            },
            Err(error) => Err(error),
        }
    }

    /// The asset of that name: the one held where it has been loaded
    /// before, and else what `loader` makes of the name, which is then
    /// held.
    pub fn load<L: AssetLoader<R>>(&mut self, details: &str, loader: &L) -> (loaded: Result<
        Rc<R>,
        L::Error,
    >)
        ensures
            old(self)@.contains_key(details@) ==> {
                &&& final(self)@ == old(self)@
                &&& loaded matches Ok(asset)
                &&& *asset == old(self)@[details@]
            },
            !old(self)@.contains_key(details@) ==> exists|outcome: Result<R, L::Error>|
                {
                    &&& call_ensures(L::load, (loader, details), outcome)
                    &&& final(self)@ == filed(old(self)@, details@, outcome)
                    &&& passes_on(loaded, outcome)
                },
    {
        if let Some(resource) = self.get(details) {
            return Ok(resource);
        }
        let outcome = loader.load(details);
        let ghost made = outcome;
        let handed = self.store(details, outcome);
        proof {
            assert(call_ensures(L::load, (loader, details), made));
        }
        handed
    }
}

/// Where every asset lies.
pub const ASSETS_LOCATION: &'static str = "assets/";

/// The files of an atlas: the description of its regions, and the two
/// places where its image may lie, the first of which is preferred.
pub struct AtlasFiles {
    pub sheet: String,
    pub image: String,
    pub description: String,
}

/// The file of the texture called `name`.
pub fn texture_file(name: &str) -> (path: String)
    ensures
        path@ == ASSETS_LOCATION@ + "/textures/"@ + name@ + ".png"@,
{
    let mut path = String::from_str(ASSETS_LOCATION);
    path.append("/textures/");
    path.append(name);
    path.append(".png");
    path
}

/// The files of the atlas called `name`.
pub fn atlas_files(name: &str) -> (files: AtlasFiles)
    ensures
        files.sheet@ == ASSETS_LOCATION@ + "/textures/sheet_"@ + name@ + ".png"@,
        files.image@ == ASSETS_LOCATION@ + "/textures/"@ + name@ + ".png"@,
        files.description@ == ASSETS_LOCATION@ + "/textures/"@ + name@ + ".json"@,
{
    let mut sheet = String::from_str(ASSETS_LOCATION);
    sheet.append("/textures/sheet_");
    sheet.append(name);
    sheet.append(".png");
    let mut description = String::from_str(ASSETS_LOCATION);
    description.append("/textures/");
    description.append(name);
    description.append(".json");
    AtlasFiles { sheet, image: texture_file(name), description }
}

} // verus!
