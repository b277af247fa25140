//! The observer: what happens around one execution of the target.
//!
//! Before a run the observer empties the comparison map. After a run, if it
//! was asked to, it reads the map out into the store of comparison values,
//! as a baseline pass or as a mutated pass.

use vstd::prelude::*;
use crate::error::Error;
use crate::header::AFLppCmpLogHeader;
use crate::metadata::{AFLppCmpValuesMetadata, PassMode, pass_headers, pass_values};
use crate::trace_map::AFLppCmpLogMap;
use crate::values::CmpValuesView;

verus! {

/// The pass that the flag `original` stands for.
pub open spec fn mode_of(original: bool) -> PassMode {
    if original {
        PassMode::Baseline
    } else {
        PassMode::Mutated
    }
}

/// The baseline values of a store that may not be there yet.
pub open spec fn originals_in(slot: Option<AFLppCmpValuesMetadata>) -> Map<usize, Seq<CmpValuesView>> {
    match slot {
        Some(m) => m.originals(),
        None => Map::empty(),
    }
}

/// The mutated values of a store that may not be there yet.
pub open spec fn mutated_in(slot: Option<AFLppCmpValuesMetadata>) -> Map<usize, Seq<CmpValuesView>> {
    match slot {
        Some(m) => m.mutated(),
        None => Map::empty(),
    }
}

/// The headers of a store that may not be there yet.
pub open spec fn snapshots_in(slot: Option<AFLppCmpValuesMetadata>) -> Map<usize, AFLppCmpLogHeader> {
    match slot {
        Some(m) => m.snapshots(),
        None => Map::empty(),
    }
}

/// An observer of the comparison map of one target.
#[derive(Debug)]
pub struct AFLppCmpLogObserver<'a> {
    cmp_map: AFLppCmpLogMap<'a>,
    size: Option<&'a usize>,
    name: String,
    add_meta: bool,
    mode: PassMode,
}

impl<'a> AFLppCmpLogObserver<'a> {
    /// The map that the observer reads.
    pub closed spec fn spec_map(&self) -> AFLppCmpLogMap<'a> {
        self.cmp_map
    }

    /// The count that was given in place of the number of sites of the map.
    pub closed spec fn spec_size(&self) -> Option<usize> {
        match self.size {
            Some(n) => Some(*n),
            None => None,
        }
    }

    /// The name of the observer.
    pub closed spec fn spec_name(&self) -> Seq<char> {
        self.name@
    }

    /// Whether the observer fills the store after a run.
    pub closed spec fn adds_meta(&self) -> bool {
        self.add_meta
    }

    /// The pass that the next run counts as.
    pub closed spec fn spec_mode(&self) -> PassMode {
        self.mode
    }

    /// Number of sites that one pass goes through: the count that was given,
    /// or else all sites of the map.
    pub open spec fn spec_usable_count(&self) -> usize {
        match self.spec_size() {
            Some(n) => n,
            None => self.spec_map().spec_len(),
        }
    }

    /// An observer of `cmp_map` that goes through all sites of the map. Its
    /// runs count as mutated passes until `set_original` says otherwise.
    pub fn new(name: &str, cmp_map: AFLppCmpLogMap<'a>, add_meta: bool) -> (obs: Self)
        ensures
            obs.spec_name() == name@,
            obs.spec_map() == cmp_map,
            obs.spec_size() is None,
            obs.adds_meta() == add_meta,
            obs.spec_mode() == PassMode::Mutated,
    {
        AFLppCmpLogObserver {
            name: name.to_string(),
            size: None,
            cmp_map,
            add_meta,
            mode: PassMode::Mutated,
        }
    }

    /// Says whether the next runs execute the original input (a baseline
    /// pass) or a mutated one.
    pub fn set_original(&mut self, v: bool)
        ensures
            final(self).spec_mode() == mode_of(v),
            final(self).spec_map() == old(self).spec_map(),
            final(self).spec_size() == old(self).spec_size(),
            final(self).spec_name() == old(self).spec_name(),
            final(self).adds_meta() == old(self).adds_meta(),
    {
        self.mode = PassMode::of_original(v);
    }

    /// An observer of `cmp_map` that goes through the first `*size` sites only.
    pub fn with_size(
        name: &str,
        cmp_map: AFLppCmpLogMap<'a>,
        add_meta: bool,
        original: bool,
        size: &'a usize,
    ) -> (obs: Self)
        ensures
            obs.spec_name() == name@,
            obs.spec_map() == cmp_map,
            obs.spec_size() == Some(*size),
            obs.adds_meta() == add_meta,
            obs.spec_mode() == mode_of(original),
    {
        AFLppCmpLogObserver {
            name: name.to_string(),
            size: Some(size),
            cmp_map,
            add_meta,
            mode: PassMode::of_original(original),
        }
    }

    /// Number of sites that one pass goes through.
    pub fn usable_count(&self) -> (n: usize)
        ensures
            n == self.spec_usable_count(),
    {
        match &self.size {
            None => self.cmp_map.len(),
            Some(o) => **o,
        }
    }

    /// The map that the observer reads.
    pub fn cmp_map(&self) -> (map: &AFLppCmpLogMap<'a>)
        ensures
            *map == self.spec_map(),
    {
        &self.cmp_map
    }

    /// The map that the observer reads, to write to.
    pub fn cmp_map_mut(&mut self) -> (map: &mut AFLppCmpLogMap<'a>)
        ensures
            *map == old(self).spec_map(),
            final(self).spec_map() == *final(map),
            final(self).spec_size() == old(self).spec_size(),
            final(self).spec_name() == old(self).spec_name(),
            final(self).adds_meta() == old(self).adds_meta(),
            final(self).spec_mode() == old(self).spec_mode(),
    {
        &mut self.cmp_map
    }

    /// The pass that the next run counts as.
    pub fn cmp_observer_data(&self) -> (mode: PassMode)
        ensures
            mode == self.spec_mode(),
    {
        self.mode
    }

    /// The name of the observer.
    pub fn name(&self) -> (name: &str)
        ensures
            name@ == self.spec_name(),
    {
        self.name.as_str()
    }

    /// Reads the map out into the store, as the pass that the observer is
    /// set to. A store that is not there yet is made first. The pass starts
    /// from nothing: a baseline pass replaces the baseline values and the
    /// headers and leaves the mutated values alone; a mutated pass replaces
    /// the mutated values and leaves the other two alone.
    pub fn add_cmpvalues_meta(&mut self, meta: &mut Option<AFLppCmpValuesMetadata>)
        ensures
            *final(self) == *old(self),
            *final(meta) is Some,
            snapshots_in(*final(meta)) == if old(self).spec_mode() == PassMode::Baseline {
                pass_headers(&old(self).spec_map(), old(self).spec_usable_count())
            } else {
                snapshots_in(*old(meta))
            },
            originals_in(*final(meta)) == if old(self).spec_mode() == PassMode::Baseline {
                pass_values(&old(self).spec_map(), old(self).spec_usable_count())
            } else {
                originals_in(*old(meta))
            },
            mutated_in(*final(meta)) == if old(self).spec_mode() == PassMode::Baseline {
                mutated_in(*old(meta))
            } else {
                pass_values(&old(self).spec_map(), old(self).spec_usable_count())
            },
    {
        if meta.is_none() {
            *meta = Some(AFLppCmpValuesMetadata::new());
        }
        let usable_count: usize = self.usable_count();
        let mode = self.cmp_observer_data();
        match meta {
            Some(store) => {
                store.clear_pass(mode);
                store.add_from(usable_count, &self.cmp_map, mode);
                proof {
                    let hs = pass_headers(&self.cmp_map, usable_count);
                    let vs = pass_values(&self.cmp_map, usable_count);
                    assert(Map::<usize, AFLppCmpLogHeader>::empty().union_prefer_right(hs) =~= hs);
                    assert(Map::<usize, Seq<CmpValuesView>>::empty().union_prefer_right(vs) =~= vs);
                }
            },
            None => {},
        }
    }

    /// To be called before the target runs: empties the map. Fails, and
    /// leaves everything as it is, where the buffer of the map is not there.
    pub fn pre_exec(&mut self) -> (r: Result<(), Error>)
        ensures
            r is Ok <==> old(self).spec_map().is_mapped(),
            r matches Err(e) ==> e == Error::MapUnavailable,
            final(self).spec_size() == old(self).spec_size(),
            final(self).spec_name() == old(self).spec_name(),
            final(self).adds_meta() == old(self).adds_meta(),
            final(self).spec_mode() == old(self).spec_mode(),
            final(self).spec_map().is_mapped() == old(self).spec_map().is_mapped(),
            final(self).spec_map().spec_len() == old(self).spec_map().spec_len(),
            final(self).spec_map().bytes() == if r is Ok {
                old(self).spec_map().reset_bytes()
            } else {
                old(self).spec_map().bytes()
            },
            forall|idx: usize| #[trigger] final(self).spec_map().recorded_for(idx) == 0,
    {
        self.cmp_map.reset()
    }

    /// To be called after the target ran: reads the map out into the store if
    /// the observer was made to do so, and does nothing otherwise. Never fails.
    pub fn post_exec(&mut self, meta: &mut Option<AFLppCmpValuesMetadata>) -> (r: Result<(), Error>)
        ensures
            r is Ok,
            *final(self) == *old(self),
            !old(self).adds_meta() ==> *final(meta) == *old(meta),
            old(self).adds_meta() ==> {
                &&& *final(meta) is Some
                &&& snapshots_in(*final(meta)) == if old(self).spec_mode() == PassMode::Baseline {
                    pass_headers(&old(self).spec_map(), old(self).spec_usable_count())
                } else {
                    snapshots_in(*old(meta))
                }
                &&& originals_in(*final(meta)) == if old(self).spec_mode() == PassMode::Baseline {
                    pass_values(&old(self).spec_map(), old(self).spec_usable_count())
                } else {
                    originals_in(*old(meta))
                }
                &&& mutated_in(*final(meta)) == if old(self).spec_mode() == PassMode::Baseline {
                    mutated_in(*old(meta))
                } else {
                    pass_values(&old(self).spec_map(), old(self).spec_usable_count())
                }
            },
    {
        if self.add_meta {
            self.add_cmpvalues_meta(meta);
        }
        Ok(())
    }
}

} // verus!
