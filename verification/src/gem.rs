//! The driver's graphics memory objects: what backs the memory that host
//! and GPU share.

use vstd::prelude::*;
use crate::allocator::Region;
use crate::drm::gem::{BaseDriverObject, BaseObject, IntoGEMObject};
use crate::error::Error;
use crate::mmu::Mapping;

verus! {

/// The driver's data in each of its objects: none.
#[derive(Debug)]
pub struct DriverObject {}

/// A graphics memory object of this driver.
pub type Object = crate::drm::gem::Object<DriverObject>;

/// The host's view of an object's memory.
#[derive(Clone, Copy, Debug, PartialEq, Eq, Structural)]
pub struct VMap {
    /// The host address of the first byte.
    pub addr: usize,
    /// The number of bytes.
    pub size: usize,
}

/// A reference to an object, with the GPU mapping and the host mapping
/// that the object has got so far.
pub struct ObjectRef {
    /// The object.
    pub gem: crate::drm::gem::ObjectRef<Object>,
    /// The range of GPU virtual addresses that shows the object, if any.
    pub mapping: Option<Mapping>,
    /// The host's view of the object, if any.
    pub vmap: Option<VMap>,
}

impl BaseDriverObject<Object> for DriverObject {
    fn init(obj: &mut Object) -> (r: Result<(), Error>)
        ensures
            r is Ok,
            *final(obj) == *old(obj),
    {
        Ok(())
    }

    fn uninit(obj: &mut Object)
        ensures
            *final(obj) == *old(obj),
    {
    }
}

impl crate::drm::gem::DriverObject for DriverObject {

}

impl ObjectRef {
    /// The number of bytes of the object.
    pub open spec fn spec_size(&self) -> usize {
        self.gem.spec_obj().spec_gem_obj().size
    }

    /// Returns the number of bytes of the object.
    pub fn size(&self) -> (r: usize)
        ensures
            r == self.spec_size(),
    {
        self.gem.deref().size()
    }

    /// Returns the host's view of the object. Where there is none yet, asks
    /// `map` for one of the object's size and keeps it.
    ///
    /// With a view at hand `map` is not called. An error of `map` is
    /// handed on, and the object stays without a view.
    pub fn vmap<F: FnOnce(usize) -> Result<VMap, Error>>(&mut self, map: F) -> (r: Result<
        VMap,
        Error,
    >)
        requires
            map.requires((old(self).spec_size(),)),
        ensures
            final(self).gem == old(self).gem,
            final(self).mapping == old(self).mapping,
            match old(self).vmap {
                Some(v) => r == Ok::<VMap, Error>(v) && final(self).vmap == old(self).vmap,
                None => {
                    &&& map.ensures((old(self).spec_size(),), r)
                    &&& final(self).vmap == (match r {
                        Ok(v) => Some(v),
                        Err(_) => None,
                    })
                },
            },
    {
        match self.vmap {
            Some(v) => Ok(v),
            None => {
                let answer = map(self.size());
                if let Ok(v) = answer {
                    self.vmap = Some(v);
                }
                answer
            },
        }
    }

    /// Maps the object to GPU virtual addresses: asks `map` for a range of
    /// the object's size and keeps it.
    ///
    /// Fails with `Busy` where the object is mapped already, without calling
    /// `map`. An error of `map` is handed on, and the object stays unmapped.
    pub fn map_into<F: FnOnce(usize) -> Result<Mapping, Error>>(&mut self, map: F) -> (r: Result<
        Mapping,
        Error,
    >)
        requires
            map.requires((old(self).spec_size(),)),
        ensures
            final(self).gem == old(self).gem,
            final(self).vmap == old(self).vmap,
            match old(self).mapping {
                Some(_) => r == Err::<Mapping, Error>(Error::Busy) && final(self).mapping == old(
                    self,
                ).mapping,
                None => {
                    &&& map.ensures((old(self).spec_size(),), r)
                    &&& final(self).mapping == (match r {
                        Ok(m) => Some(m),
                        Err(_) => None,
                    })
                },
            },
    {
        if self.mapping.is_some() {
            return Err(Error::Busy);
        }
        let answer = map(self.size());
        if let Ok(m) = answer {
            self.mapping = Some(m);
        }
        answer
    }

    /// Returns the first GPU virtual address of the object, if it is mapped.
    pub fn iova(&self) -> (r: Option<usize>)
        ensures
            r == (match self.mapping {
                Some(m) => Some(m.iova),
                None => None,
            }),
    {
        match self.mapping {
            Some(m) => Some(m.iova()),
            None => None,
        }
    }

    /// What `region` answers: the object's bytes as the host and the GPU
    /// see them, where the object has both views and they describe a region.
    pub open spec fn spec_region(&self) -> Option<(usize, u64, usize)> {
        match (self.vmap, self.mapping) {
            (Some(v), Some(m)) => if Region::valid(v.addr, m.iova as u64, self.spec_size()) {
                Some((v.addr, m.iova as u64, self.spec_size()))
            } else {
                None
            },
            _ => None,
        }
    }

    /// Returns the object's memory as a region to allocate from.
    ///
    /// Fails with `InvalidArgument` where the object lacks a view of the
    /// host or a mapping for the GPU, or where the two describe no region.
    pub fn region(&self) -> (r: Result<Region, Error>)
        ensures
            match r {
                Ok(region) => {
                    &&& region.wf()
                    &&& self.spec_region() == Some(
                        (region.spec_host_base(), region.spec_gpu_base(), region.spec_len()),
                    )
                },
                Err(e) => self.spec_region() is None && e == Error::InvalidArgument,
            },
    {
        match (self.vmap, self.mapping) {
            (Some(v), Some(m)) => Region::new(v.addr, m.iova as u64, self.size()),
            _ => Err(Error::InvalidArgument),
        }
    }
}

/// Makes an object of `size` bytes that has no view and no mapping yet.
pub fn new_object(size: usize) -> (r: Result<ObjectRef, Error>)
    ensures
        r matches Ok(o) && o.spec_size() == size && o.mapping is None && o.vmap is None,
{
    let private = DriverObject {  };
    match Object::new(private, size) {
        Ok(gem) => Ok(ObjectRef { gem, mapping: None, vmap: None }),
        Err(e) => Err(e),
    }
}

} // verus!
