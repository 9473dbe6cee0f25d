//! A flat lookup from asset names to file paths.
use vstd::prelude::*;

verus! {

/// Errors related to assets.
#[derive(Debug)]
pub enum AssetError {
    /// The requested asset name was not found.
    NameNotFound(String),
}

/// An asset's name and the path of its file, relative to the game's
/// directory.
#[derive(Debug)]
pub struct AssetHandle {
    name: String,
    path: String,
}

impl View for AssetHandle {
    type V = (Seq<char>, Seq<char>);

    closed spec fn view(&self) -> (Seq<char>, Seq<char>) {
        (self.name@, self.path@)
    }
}

impl AssetHandle {
    pub fn new(name: String, path: String) -> (r: AssetHandle)
        ensures
            r@ == (name@, path@),
    {
        AssetHandle { name, path }
    }

    pub fn name(&self) -> (r: &String)
        ensures
            r@ == self@.0,
    {
        &self.name
    }

    pub fn path(&self) -> (r: &String)
        ensures
            r@ == self@.1,
    {
        &self.path
    }
}

/// The known assets, in the order they were added.
#[derive(Debug)]
pub struct AssetDatabase {
    assets: Vec<AssetHandle>,
}

impl View for AssetDatabase {
    type V = Seq<(Seq<char>, Seq<char>)>;

    closed spec fn view(&self) -> Seq<(Seq<char>, Seq<char>)> {
        self.assets@.map_values(|h: AssetHandle| h@)
    }
}

/// The first handle in `s` named `name`, by position.
pub open spec fn is_first_named(s: Seq<(Seq<char>, Seq<char>)>, name: Seq<char>, i: int) -> bool {
    &&& 0 <= i < s.len()
    &&& s[i].0 == name
    &&& forall|j: int| 0 <= j < i ==> (#[trigger] s[j]).0 != name
}

impl AssetDatabase {
    /// A database that knows no asset.
    pub fn new() -> (r: AssetDatabase)
        ensures
            r@ == Seq::<(Seq<char>, Seq<char>)>::empty(),
    {
        let r = AssetDatabase { assets: Vec::new() };
        assert(r@ =~= Seq::<(Seq<char>, Seq<char>)>::empty());
        r
    }

    /// Adds an asset after those already known.
    pub fn add(&mut self, handle: AssetHandle)
        ensures
            final(self)@ == old(self)@.push(handle@),
    {
        self.assets.push(handle);
        assert(self@ =~= old(self)@.push(handle@));
    }

    /// The first asset named `name`, if any.
    pub fn get_handle(&self, name: &str) -> (r: Option<&AssetHandle>)
        ensures
            r matches Some(h) ==> exists|i: int| is_first_named(self@, name@, i) && self@[i] == h@,
            r is None ==> forall|i: int| 0 <= i < self@.len() ==> (#[trigger] self@[i]).0 != name@,
    {
        let wanted = name.to_owned();
        let mut i: usize = 0;
        while i < self.assets.len()
            invariant
                0 <= i <= self@.len(),
                self@.len() == self.assets@.len(),
                wanted@ == name@,
                forall|j: int| 0 <= j < i ==> (#[trigger] self@[j]).0 != name@,
            decreases self@.len() - i,
        {
            assert(self@[i as int] == self.assets@[i as int]@);
            if self.assets[i].name == wanted {
                assert(is_first_named(self@, name@, i as int));
                return Some(&self.assets[i]);
            }
            i = i + 1;
        }
        None
    }

    /// The first asset named `name`, or `NameNotFound` with that name.
    pub fn get(&self, name: &str) -> (r: Result<&AssetHandle, AssetError>)
        ensures
            r matches Ok(h) ==> exists|i: int| is_first_named(self@, name@, i) && self@[i] == h@,
            r is Err ==> forall|i: int| 0 <= i < self@.len() ==> (#[trigger] self@[i]).0 != name@,
            r matches Err(AssetError::NameNotFound(n)) ==> n@ == name@,
    {
        match self.get_handle(name) {
            Some(h) => Ok(h),
            None => Err(AssetError::NameNotFound(name.to_owned())),
        }
    }
}

} // verus!
