use vstd::prelude::*;

verus! {

/// A value paired with the position it was declared at, so that collections
/// of named items can be brought back into declaration order.  Two indexed
/// values compare equal by position alone, whatever they carry.
pub struct Indexed<T> {
    pub index: usize,
    pub inner: T,
}

impl<T> Indexed<T> {
    pub fn into_tuple(self) -> (r: (usize, T))
        ensures
            r.0 == self.index,
            r.1 == self.inner,
    {
        (self.index, self.inner)
    }

    pub fn into_inner(self) -> (r: T)
        ensures
            r == self.inner,
    {
        self.inner
    }

    /// The carried value sent through the given function; the position is
    /// kept.
    pub fn map<R, F: FnOnce(T) -> R>(self, map: F) -> (r: Indexed<R>)
        requires
            map.requires((self.inner,)),
        ensures
            r.index == self.index,
            map.ensures((self.inner,), r.inner),
    {
        Indexed { index: self.index, inner: (map)(self.inner) }
    }
}

impl<T> Indexed<Option<T>> {
    /// An indexed optional value turned into an optional indexed value.
    pub fn transpose(self) -> (r: Option<Indexed<T>>)
        ensures
            match r {
                Some(indexed) => self.inner matches Some(inner) && indexed.index == self.index
                    && indexed.inner == inner,
                None => self.inner is None,
            },
    {
        let Indexed { index, inner } = self;
        match inner {
            Some(inner) => Some(Indexed { index, inner }),
            None => None,
        }
    }
}

impl<T, E> Indexed<Result<T, E>> {
    /// An indexed fallible value turned into a fallible indexed value: the
    /// position is kept on success and the error passed through.
    pub fn transpose(self) -> (r: Result<Indexed<T>, E>)
        ensures
            match r {
                Ok(indexed) => self.inner matches Ok(inner) && indexed.index == self.index
                    && indexed.inner == inner,
                Err(e) => self.inner matches Err(inner_e) && e == inner_e,
            },
    {
        let Indexed { index, inner } = self;
        match inner {
            Ok(inner) => Ok(Indexed { index, inner }),
            Err(e) => Err(e),
        }
    }
}

impl<T> PartialEq for Indexed<T> {
    /// Positions alone decide equality.
    fn eq(&self, other: &Self) -> (r: bool) {
        self.index == other.index
    }
}

impl<T> Eq for Indexed<T> {

}

impl<T> vstd::std_specs::cmp::PartialEqSpecImpl for Indexed<T> {
    open spec fn obeys_eq_spec() -> bool {
        true
    }

    open spec fn eq_spec(&self, other: &Indexed<T>) -> bool {
        self.index == other.index
    }
}

} // verus!
