//! Graphics memory objects: memory that the platform hands out in whole
//! objects, each with a driver's own data beside it.

use vstd::prelude::*;
use crate::drm::private::Sealed;
use crate::error::Error;

verus! {

/// What the platform keeps of every graphics memory object.
#[derive(Clone, Copy, Debug, PartialEq, Eq, Structural)]
pub struct GemObject {
    /// The number of bytes of the object.
    pub size: usize,
}

/// The hooks of a driver into the life of its objects.
pub trait BaseDriverObject<T: BaseObject>: Sync + Send + Sized {
    /// Called once on each new object before anyone else sees it. An error
    /// gives the object up. The hook leaves the platform's part alone.
    ///
    /// A driver that gives no hook of its own accepts every object and
    /// leaves it as it is.
    fn init(obj: &mut T) -> (r: Result<(), Error>)
        ensures
            final(obj).spec_gem_obj() == old(obj).spec_gem_obj(),
        default_ensures
            r is Ok,
            *final(obj) == *old(obj),
    {
        Ok(())
    }

    /// Called once on each object when it is freed. The hook leaves the
    /// platform's part alone.
    fn uninit(obj: &mut T)
        ensures
            final(obj).spec_gem_obj() == old(obj).spec_gem_obj(),
    {
    }
}

/// A type that holds the platform's part of a graphics memory object.
pub trait IntoGEMObject: Sized + Sealed {
    /// The platform's part of the object.
    spec fn spec_gem_obj(&self) -> GemObject;

    /// Returns the platform's part of the object.
    fn gem_obj(&self) -> (r: &GemObject)
        ensures
            *r == self.spec_gem_obj(),
    ;
}

/// What every graphics memory object offers.
pub trait BaseObject: IntoGEMObject {
    /// Returns the number of bytes of the object.
    fn size(&self) -> (r: usize)
        ensures
            r == self.spec_gem_obj().size,
    ;
}

impl<T: IntoGEMObject> BaseObject for T {
    fn size(&self) -> (r: usize) {
        self.gem_obj().size
    }
}

/// The data that a driver keeps in each of its objects. A driver gives its
/// hooks by `BaseDriverObject` for `Object` of that data.
pub trait DriverObject: Sync + Send + Sized {

}

/// A graphics memory object of a driver: the platform's part and the
/// driver's data.
pub struct Object<T: DriverObject> {
    obj: GemObject,
    /// The driver's data.
    pub p: T,
}

impl<T: DriverObject> Object<T> {
    /// The driver's data.
    pub closed spec fn spec_private(&self) -> T {
        self.p
    }
}

impl<T: DriverObject> Sealed for Object<T> {

}

impl<T: DriverObject> IntoGEMObject for Object<T> {
    closed spec fn spec_gem_obj(&self) -> GemObject {
        self.obj
    }

    fn gem_obj(&self) -> (r: &GemObject) {
        &self.obj
    }
}

/// A reference to a graphics memory object, which lives as long as one of
/// its references.
pub struct ObjectRef<T: IntoGEMObject> {
    obj: std::sync::Arc<T>,
}

impl<T: IntoGEMObject> ObjectRef<T> {
    /// The object.
    pub closed spec fn spec_obj(&self) -> T {
        *self.obj
    }

    /// The object.
    pub fn deref(&self) -> (r: &T)
        ensures
            *r == self.spec_obj(),
    {
        &*self.obj
    }
}

/// `Arc::try_unwrap` of std: where `obj` is the only reference to its
/// value, the value is handed out; else the reference is given up and the
/// answer is `None`. Which of the two happens is decided by who else holds
/// a reference at that moment.
#[verifier::external_body]
fn only_reference<T>(obj: std::sync::Arc<T>) -> (r: Option<T>)
    ensures
        r matches Some(t) ==> t == *obj,
{
    match std::sync::Arc::try_unwrap(obj) {
        Ok(t) => Some(t),
        Err(_) => None,
    }
}

impl<T: IntoGEMObject> Clone for ObjectRef<T> {
    /// Another reference to the same object.
    fn clone(&self) -> (r: Self)
        ensures
            r.spec_obj() == self.spec_obj(),
    {
        ObjectRef { obj: self.obj.clone() }
    }
}

impl<T: DriverObject + BaseDriverObject<Object<T>>> Object<T> {
    /// Makes an object of `size` bytes around the driver's data `private`,
    /// and has the driver's `init` hook look at it.
    ///
    /// Fails with the error of the hook, if it gives one.
    pub fn new(private: T, size: usize) -> (r: Result<ObjectRef<Self>, Error>)
        ensures
            r matches Ok(o) ==> o.spec_obj().spec_gem_obj().size == size,
            exists|before: &mut Object<T>, hook: Result<(), Error>|
                {
                    &&& before.spec_gem_obj().size == size
                    &&& before.spec_private() == private
                    &&& #[trigger] call_ensures(T::init, (before,), hook)
                    &&& match hook {
                        Err(e) => r matches Err(f) && f == e,
                        Ok(_) => r matches Ok(o) && o.spec_obj() == *final(before),
                    }
                },
    {
        let mut obj = Object { obj: GemObject { size }, p: private };
        match T::init(&mut obj) {
            Ok(_) => Ok(ObjectRef { obj: std::sync::Arc::new(obj) }),
            Err(e) => Err(e),
        }
    }

    /// Frees the object, once no reference to it is left: has the driver's
    /// `uninit` hook look at it, and hands back the driver's data as the
    /// hook has left it.
    pub fn free(self) -> (r: T)
        ensures
            exists|before: &mut Object<T>|
                {
                    &&& *before == self
                    &&& #[trigger] call_ensures(T::uninit, (before,), ())
                    &&& r == final(before).spec_private()
                },
    {
        let mut obj = self;
        T::uninit(&mut obj);
        obj.p
    }
}

impl<T: DriverObject + BaseDriverObject<Object<T>>> ObjectRef<Object<T>> {
    /// Gives the reference up. Where it was the last one, the object is
    /// freed as `Object::free` does, and the answer is the driver's data;
    /// else the object lives on and the answer is `None`.
    pub fn put(self) -> (r: Option<T>)
        ensures
            r matches Some(data) ==> exists|before: &mut Object<T>|
                {
                    &&& *before == self.spec_obj()
                    &&& #[trigger] call_ensures(T::uninit, (before,), ())
                    &&& data == final(before).spec_private()
                },
    {
        match only_reference(self.obj) {
            Some(object) => Some(object.free()),
            None => None,
        }
    }
}

} // verus!
