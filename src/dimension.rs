use vstd::prelude::*;
use vstd::string::StrSliceExecFns;

verus! {

/// One of the two parallel overlays of the grid.
#[derive(Clone, Copy, Debug, PartialEq, Eq, Structural)]
pub enum Dimension {
    Light,
    Dark,
}

/// The dimension that a map document writes as `s`, if any.
pub open spec fn dimension_named(s: Seq<char>) -> Result<Dimension, ()> {
    if s == "light"@ {
        Ok(Dimension::Light)
    } else if s == "dark"@ {
        Ok(Dimension::Dark)
    } else {
        Err(())
    }
}

/// Whether two strings hold the same characters.
pub fn same_text(a: &str, b: &str) -> (r: bool)
    ensures
        r == (a@ == b@),
{
    let n = a.unicode_len();
    if n != b.unicode_len() {
        return false;
    }
    let mut i: usize = 0;
    while i < n
        invariant
            n == a@.len(),
            n == b@.len(),
            i <= n,
            a@.subrange(0, i as int) == b@.subrange(0, i as int),
        decreases n - i,
    {
        if a.get_char(i) != b.get_char(i) {
            return false;
        }
        assert(a@.subrange(0, i + 1) =~= a@.subrange(0, i as int).push(a@[i as int]));
        assert(b@.subrange(0, i + 1) =~= b@.subrange(0, i as int).push(b@[i as int]));
        i = i + 1;
    }
    assert(a@ =~= a@.subrange(0, n as int));
    assert(b@ =~= b@.subrange(0, n as int));
    true
}

impl Dimension {
    /// The dimension that a switch leads to.
    pub open spec fn other(self) -> Dimension {
        match self {
            Dimension::Light => Dimension::Dark,
            Dimension::Dark => Dimension::Light,
        }
    }

    /// Toggles between the two dimensions.
    pub fn switch_dimension(&mut self)
        ensures
            *final(self) == old(self).other(),
    {
        match *self {
            Dimension::Light => *self = Dimension::Dark,
            Dimension::Dark => *self = Dimension::Light,
        }
    }

    /// Reads the name a map document gives a dimension: `"light"` or `"dark"`.
    pub fn from_name(s: &str) -> (r: Result<Dimension, ()>)
        ensures
            r == dimension_named(s@),
    {
        if same_text(s, "light") {
            Ok(Dimension::Light)
        } else if same_text(s, "dark") {
            Ok(Dimension::Dark)
        } else {
            Err(())
        }
    }
}

impl std::str::FromStr for Dimension {
    type Err = ();

    fn from_str(s: &str) -> (r: Result<Dimension, ()>)
        ensures
            r == dimension_named(s@),
    {
        Dimension::from_name(s)
    }
}

} // verus!
