//! The exercising menagerie: small concrete types registered through the
//! expander and wrapped into cells by the boundary tests.
//!
//! `Animal` is the full trait with an associated constructor; since a
//! constructor keeps a trait from being object safe, the bindings dispatch
//! through `AnimalProxy`, which every `Animal` implements.  The talking
//! methods return their lines; printing them is the boundary caller's
//! business.

use vstd::prelude::*;

verus! {

/// An animal with a name and a noise.  `talk` composes the line the animal
/// says; implementors may put it differently.
pub trait Animal: Sized {
    /// The animal's name.
    spec fn spec_name(&self) -> Seq<char>;

    /// The noise the animal makes in its current state.
    spec fn spec_noise(&self) -> Seq<char>;

    /// The line the animal says.
    open spec fn spec_talk(&self) -> Seq<char> {
        self.spec_name() + " says "@ + self.spec_noise()
    }

    /// A new animal with the given name.
    fn new(name: String) -> (r: Self)
        ensures
            r.spec_name() == name@,
    ;

    /// The animal's name.
    fn name(&self) -> (r: String)
        ensures
            r@ == self.spec_name(),
    ;

    /// The animal's noise.
    fn noise(&self) -> (r: String)
        ensures
            r@ == self.spec_noise(),
    ;

    /// The line the animal says.
    fn talk(&self) -> (r: String)
        ensures
            r@ == self.spec_talk(),
    ;
}

/// A sheep: named, and naked once shorn.
pub struct Sheep {
    naked: bool,
    name: String,
}

/// The state of a sheep.
pub ghost struct SheepV {
    pub naked: bool,
    pub name: Seq<char>,
}

impl View for Sheep {
    type V = SheepV;

    closed spec fn view(&self) -> SheepV {
        SheepV { naked: self.naked, name: self.name@ }
    }
}

impl Sheep {
    /// Whether the sheep has been shorn.
    pub fn is_naked(&self) -> (r: bool)
        ensures
            r == self@.naked,
    {
        self.naked
    }

    /// Shears the sheep, unless it is already naked, and returns the line
    /// the shearing prints.
    pub fn shear(&mut self) -> (r: String)
        ensures
            final(self)@ == (SheepV { naked: true, name: old(self)@.name }),
            r@ == if old(self)@.naked {
                old(self)@.name + " is already naked..."@
            } else {
                old(self)@.name + " gets a haircut!"@
            },
    {
        if self.is_naked() {
            let mut line = self.name.clone();
            line.append(" is already naked...");
            line
        } else {
            let mut line = self.name.clone();
            line.append(" gets a haircut!");
            self.naked = true;
            line
        }
    }
}

impl Animal for Sheep {
    open spec fn spec_name(&self) -> Seq<char> {
        self@.name
    }

    open spec fn spec_noise(&self) -> Seq<char> {
        if self@.naked {
            "baaaaah?"@
        } else {
            "baaaaah!"@
        }
    }

    /// A sheep pauses for some quiet contemplation before speaking.
    open spec fn spec_talk(&self) -> Seq<char> {
        self.spec_name() + " pauses briefly... "@ + self.spec_noise()
    }

    fn new(name: String) -> (r: Sheep) {
        Sheep { name, naked: false }
    }

    fn name(&self) -> (r: String) {
        self.name.clone()
    }

    fn noise(&self) -> (r: String) {
        if self.is_naked() {
            "baaaaah?".to_owned()
        } else {
            "baaaaah!".to_owned()
        }
    }

    fn talk(&self) -> (r: String) {
        let mut line = self.name.clone();
        let noise = Animal::noise(self);
        line.append(" pauses briefly... ");
        line.append(noise.as_str());
        line
    }
}

/// A wolf: named, and hungry when told so.
pub struct Wolf {
    name: String,
    hungry: bool,
}

/// The state of a wolf.
pub ghost struct WolfV {
    pub name: Seq<char>,
    pub hungry: bool,
}

impl View for Wolf {
    type V = WolfV;

    closed spec fn view(&self) -> WolfV {
        WolfV { name: self.name@, hungry: self.hungry }
    }
}

impl Wolf {
    /// Marks the wolf hungry, or fed.
    pub fn set_hungry(&mut self, hungry: bool)
        ensures
            final(self)@ == (WolfV { name: old(self)@.name, hungry }),
    {
        self.hungry = hungry;
    }
}

impl Animal for Wolf {
    open spec fn spec_name(&self) -> Seq<char> {
        self@.name
    }

    open spec fn spec_noise(&self) -> Seq<char> {
        "rrrrrr!"@
    }

    fn new(name: String) -> (r: Wolf) {
        Wolf { name, hungry: false }
    }

    fn name(&self) -> (r: String) {
        self.name.clone()
    }

    fn noise(&self) -> (r: String) {
        "rrrrrr!".to_owned()
    }

    fn talk(&self) -> (r: String) {
        let mut line = self.name.clone();
        let noise = Animal::noise(self);
        line.append(" says ");
        line.append(noise.as_str());
        line
    }
}

/// The object-safe face of `Animal`: the constructor is left out, so values
/// of any `Animal` type can stand behind one interface at the boundary.
pub trait AnimalProxy {
    /// The animal's name.
    spec fn proxy_name(&self) -> Seq<char>;

    /// The animal's noise.
    spec fn proxy_noise(&self) -> Seq<char>;

    /// The line the animal says.
    spec fn proxy_talk(&self) -> Seq<char>;

    /// The animal's name.
    fn name(&self) -> (r: String)
        ensures
            r@ == self.proxy_name(),
    ;

    /// The animal's noise.
    fn noise(&self) -> (r: String)
        ensures
            r@ == self.proxy_noise(),
    ;

    /// The line the animal says.
    fn talk(&self) -> (r: String)
        ensures
            r@ == self.proxy_talk(),
    ;
}

/// Every animal already carries the proxy's behaviour.
impl<T: Animal> AnimalProxy for T {
    open spec fn proxy_name(&self) -> Seq<char> {
        self.spec_name()
    }

    open spec fn proxy_noise(&self) -> Seq<char> {
        self.spec_noise()
    }

    open spec fn proxy_talk(&self) -> Seq<char> {
        self.spec_talk()
    }

    fn name(&self) -> (r: String) {
        Animal::name(self)
    }

    fn noise(&self) -> (r: String) {
        Animal::noise(self)
    }

    fn talk(&self) -> (r: String) {
        Animal::talk(self)
    }
}

/// A sheep behind one more layer of wrapping, for bindings that hand out a
/// borrowed view of the inner animal.
pub struct SheepWrapper(pub Sheep);

impl SheepWrapper {
    /// A borrow of the wrapped sheep.
    pub fn sheep(&self) -> (r: &Sheep)
        ensures
            *r == self.0,
    {
        &self.0
    }
}

} // verus!
