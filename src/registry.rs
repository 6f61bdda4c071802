//! The applications that can be run, and the image each one is bound to.
use vstd::prelude::*;

verus! {

/// An application that can be launched in a container.
#[derive(Clone, Copy, Debug, PartialEq, Eq, Structural)]
pub enum App {
    Score,
    Rosetta,
}

/// The image that runs `app`.
pub open spec fn image_of(app: App) -> Seq<char> {
    match app {
        App::Score => "rosettacommons/rosetta:serial"@,
        App::Rosetta => "rosettacommons/rosetta:serial"@,
    }
}

/// The name under which `app` is known to users.
pub open spec fn app_name(app: App) -> Seq<char> {
    match app {
        App::Score => "score"@,
        App::Rosetta => "rosetta"@,
    }
}

/// The application whose name is `name`, if any.
pub open spec fn app_named(name: Seq<char>) -> Option<App> {
    if name == app_name(App::Score) {
        Some(App::Score)
    } else if name == app_name(App::Rosetta) {
        Some(App::Rosetta)
    } else {
        None
    }
}

impl App {
    /// Looks an application up by its name; `None` for a name outside the set.
    pub fn from_name(name: &str) -> (r: Option<App>)
        ensures
            r == app_named(name@),
    {
        let name = String::from_str(name);
        if name == String::from_str("score") {
            Some(App::Score)
        } else if name == String::from_str("rosetta") {
            Some(App::Rosetta)
        } else {
            None
        }
    }

    /// The name under which this application is known to users.
    pub fn name(&self) -> (r: String)
        ensures
            r@ == app_name(*self),
    {
        match self {
            App::Score => String::from_str("score"),
            App::Rosetta => String::from_str("rosetta"),
        }
    }
}

/// A reference to a container image, such as `registry/name:tag`.
pub struct Image(String);

impl View for Image {
    type V = Seq<char>;

    closed spec fn view(&self) -> Seq<char> {
        self.0@
    }
}

impl Image {
    /// Resolves `app` to the image it runs in.
    pub fn new(app: &App) -> (r: Image)
        ensures
            r@ == image_of(*app),
    {
        match app {
            App::Score => Image(String::from_str("rosettacommons/rosetta:serial")),
            App::Rosetta => Image(String::from_str("rosettacommons/rosetta:serial")),
        }
    }

    /// The image reference as text.
    pub fn as_str(&self) -> (r: &str)
        ensures
            r@ == self@,
    {
        self.0.as_str()
    }
}

/// Resolution is total and yields a non-empty image: every application maps
/// to an image reference with at least one character.
pub proof fn lemma_image_non_empty(app: App)
    ensures
        image_of(app).len() > 0,
{
    reveal_strlit("rosettacommons/rosetta:serial");
}

} // verus!
