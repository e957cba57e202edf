use vstd::prelude::*;

verus! {

/// The directory name that roots a data tree; profiles live directly
/// beneath it.
pub open spec fn install_marker() -> Seq<char> {
    "Anki2"@
}

/// The fixed file name of a collection database.
pub open spec fn collection_file_name() -> Seq<char> {
    "collection.anki2"@
}

/// Executable twin of [`install_marker`].
pub fn install_marker_name() -> (r: &'static str)
    ensures
        r@ == install_marker(),
{
    "Anki2"
}

/// Executable twin of [`collection_file_name`].
pub fn collection_name() -> (r: &'static str)
    ensures
        r@ == collection_file_name(),
{
    "collection.anki2"
}

/// A filesystem path modelled as its sequence of components, each one a
/// plain string: no separators, no root marker.  The caller converts real
/// paths to and from this form; the resolution logic only ever reads
/// components.
#[derive(Debug)]
pub struct FsPath {
    pub components: Vec<String>,
}

impl View for FsPath {
    type V = Seq<Seq<char>>;

    open spec fn view(&self) -> Seq<Seq<char>> {
        self.components.deep_view()
    }
}

impl DeepView for FsPath {
    type V = Seq<Seq<char>>;

    open spec fn deep_view(&self) -> Seq<Seq<char>> {
        self.view()
    }
}

/// Whether some component of the path equals `name`.
pub open spec fn spec_has_component(p: Seq<Seq<char>>, name: Seq<char>) -> bool {
    exists|i: int| 0 <= i < p.len() && p[i] == name
}

/// The path trimmed to its deepest component named `Anki2`, walking upward
/// from the leaf; `None` when no component is so named.
pub open spec fn spec_trim_to_install(p: Seq<Seq<char>>) -> Option<Seq<Seq<char>>>
    decreases p.len(),
{
    if p.len() == 0 {
        None
    } else if p.last() == install_marker() {
        Some(p)
    } else {
        spec_trim_to_install(p.drop_last())
    }
}

/// The component immediately after the first one named `Anki2`: by
/// convention the profile directory.  `None` when there is no `Anki2`
/// component or nothing follows it.
pub open spec fn spec_profile_of(p: Seq<Seq<char>>) -> Option<Seq<char>>
    decreases p.len(),
{
    if p.len() == 0 {
        None
    } else if p.first() == install_marker() {
        if p.len() >= 2 {
            Some(p[1])
        } else {
            None
        }
    } else {
        spec_profile_of(p.drop_first())
    }
}

impl FsPath {
    pub fn new(components: Vec<String>) -> (r: FsPath)
        ensures
            r@ == components.deep_view(),
    {
        FsPath { components }
    }

    /// An independent copy with the same components.
    pub fn duplicate(&self) -> (r: FsPath)
        ensures
            r@ == self@,
    {
        let mut out: Vec<String> = Vec::new();
        let mut i: usize = 0;
        while i < self.components.len()
            invariant
                i <= self.components.len(),
                out.deep_view() == self@.take(i as int),
            decreases self.components.len() - i,
        {
            out.push(self.components[i].clone());
            proof {
                assert(out.deep_view() =~= self@.take(i as int).push(self@[i as int]));
                assert(self@.take(i as int).push(self@[i as int]) =~= self@.take(i + 1 as int));
            }
            i += 1;
        }
        proof {
            assert(self@.take(self.components.len() as int) =~= self@);
        }
        FsPath { components: out }
    }

    /// The path extended by one more component.
    pub fn child(self, name: &str) -> (r: FsPath)
        ensures
            r@ == self@.push(name@),
    {
        let ghost orig: Seq<Seq<char>> = self@;
        let mut components = self.components;
        components.push(String::from_str(name));
        proof {
            assert(components.deep_view() =~= orig.push(name@));
        }
        FsPath { components }
    }

    /// Whether some component equals `name`.
    pub fn has_component(&self, name: &String) -> (r: bool)
        ensures
            r == spec_has_component(self@, name@),
    {
        let mut i: usize = 0;
        while i < self.components.len()
            invariant
                i <= self.components.len(),
                forall|j: int| 0 <= j < i ==> self@[j] != name@,
            decreases self.components.len() - i,
        {
            if self.components[i].eq(name) {
                proof {
                    assert(self@[i as int] == name@);
                }
                return true;
            }
            i += 1;
        }
        false
    }

    /// Structural equality of two paths, component by component.
    pub fn same_as(&self, other: &FsPath) -> (r: bool)
        ensures
            r == (self@ == other@),
    {
        if self.components.len() != other.components.len() {
            proof {
                assert(self@.len() != other@.len());
            }
            return false;
        }
        let mut i: usize = 0;
        while i < self.components.len()
            invariant
                i <= self.components.len(),
                self.components.len() == other.components.len(),
                forall|j: int| 0 <= j < i ==> self@[j] == other@[j],
            decreases self.components.len() - i,
        {
            if !self.components[i].eq(&other.components[i]) {
                proof {
                    assert(self@[i as int] != other@[i as int]);
                }
                return false;
            }
            i += 1;
        }
        proof {
            assert(self@ =~= other@);
        }
        true
    }

    /// Trims the path upward to its deepest `Anki2` component, as
    /// [`spec_trim_to_install`] describes.
    pub fn trim_to_install(self) -> (r: Option<FsPath>)
        ensures
            r.deep_view() == spec_trim_to_install(self@),
    {
        let ghost orig: Seq<Seq<char>> = self@;
        let marker = String::from_str(install_marker_name());
        let mut components = self.components;
        #[verifier::loop_isolation(false)]
        loop
            invariant
                marker@ == install_marker(),
                spec_trim_to_install(components.deep_view()) == spec_trim_to_install(orig),
            decreases components.len(),
        {
            if components.len() == 0 {
                proof {
                    assert(components.deep_view().len() == 0);
                }
                return None;
            }
            if components[components.len() - 1].eq(&marker) {
                proof {
                    assert(components.deep_view().last() == install_marker());
                }
                return Some(FsPath { components });
            }
            let ghost before: Seq<Seq<char>> = components.deep_view();
            components.pop();
            proof {
                assert(components.deep_view() =~= before.drop_last());
            }
        }
    }

    /// The profile directory named by the path, as [`spec_profile_of`]
    /// describes.
    pub fn profile_of(&self) -> (r: Option<String>)
        ensures
            r.deep_view() == spec_profile_of(self@),
    {
        let marker = String::from_str(install_marker_name());
        proof {
            assert(self@.skip(0) =~= self@);
        }
        let mut i: usize = 0;
        while i < self.components.len()
            invariant
                i <= self.components.len(),
                marker@ == install_marker(),
                spec_profile_of(self@.skip(i as int)) == spec_profile_of(self@),
            decreases self.components.len() - i,
        {
            if self.components[i].eq(&marker) {
                proof {
                    assert(self@.skip(i as int).first() == install_marker());
                }
                if i + 1 < self.components.len() {
                    proof {
                        assert(self@.skip(i as int)[1] == self@[i + 1]);
                    }
                    return Some(self.components[i + 1].clone());
                } else {
                    proof {
                        assert(self@.skip(i as int).len() < 2);
                    }
                    return None;
                }
            }
            proof {
                assert(self@.skip(i as int).drop_first() =~= self@.skip(i + 1 as int));
                assert(self@.skip(i as int).first() != install_marker());
            }
            i += 1;
        }
        proof {
            assert(self@.skip(i as int).len() == 0);
        }
        None
    }
}

} // verus!
