//! The decoding context: the capability surface passed into every decode
//! call.
//!
//! A context carries the shared byte image, the endianness of its
//! fixed-width fields, the string and type tables supplied by the container
//! parser, the host's tagged-value decoder, and the resolution cache for
//! offset-keyed structures.

use vstd::prelude::*;

use crate::annotation::{
    resolve_item_at, resolve_set_item_at, resolve_set_ref_list_at, AnnotationItem,
    AnnotationSetItem, AnnotationSetRefList, SpecAnnotationItem,
};
use crate::cache::{cache_map, Cache, CachedEntry};
use crate::codec::Endian;
use crate::error::{ErrKind, Error};
use crate::jtype::{SpecTypeRef, TypeRef};
use crate::value::ValueDecoder;

verus! {

/// Mathematical model of a [`DexContext`]: the byte image, its endianness,
/// and the two identifier tables. The cache is deliberately absent: it is a
/// performance device and never changes what anything decodes to.
pub struct DexView {
    pub data: Seq<u8>,
    pub endian: Endian,
    pub strings: Seq<Seq<char>>,
    pub types: Seq<Seq<char>>,
}

/// The decoding context, generic over the host's tagged-value decoder.
pub struct DexContext<D: ValueDecoder> {
    /// The shared, immutable byte image all offsets point into.
    pub buf: Vec<u8>,
    /// Byte order of fixed-width fields.
    pub endian: Endian,
    /// The string table: index to string.
    pub strings: Vec<String>,
    /// The type table: index to type descriptor.
    pub types: Vec<String>,
    /// The hook that decodes one tagged value.
    pub decoder: D,
    /// The resolution cache for offset-keyed structures.
    pub cache: Cache,
}

impl<D: ValueDecoder> View for DexContext<D> {
    type V = DexView;

    open spec fn view(&self) -> DexView {
        DexView {
            data: self.buf@,
            endian: self.endian,
            strings: self.strings@.map_values(|s: String| s@),
            types: self.types@.map_values(|s: String| s@),
        }
    }
}

/// Whether one cached entry records exactly what resolving its key against
/// the byte image yields.
pub open spec fn entry_ok<D: ValueDecoder>(d: &D, v: DexView, k: u32, e: CachedEntry) -> bool {
    match e {
        CachedEntry::Item(it) => resolve_item_at(d, v, k) == Ok::<SpecAnnotationItem, ErrKind>(it@),
        CachedEntry::SetItem(s) => resolve_set_item_at(d, v, k) == Ok::<
            Seq<SpecAnnotationItem>,
            ErrKind,
        >(s@),
        CachedEntry::RefList(l) => resolve_set_ref_list_at(d, v, k) == Ok::<
            Seq<Seq<SpecAnnotationItem>>,
            ErrKind,
        >(l@),
    }
}

impl<D: ValueDecoder> DexContext<D> {
    /// The context's invariant: every cached entry records exactly what
    /// resolving its key yields, so a cache hit and a fresh decode are
    /// interchangeable.
    pub open spec fn wf(self) -> bool {
        forall|k: u32|
            #[trigger] cache_map(self.cache).dom().contains(k) ==> entry_ok(
                &self.decoder,
                self@,
                k,
                cache_map(self.cache)[k],
            )
    }

    /// Creates a context over the given byte image and tables, with a fresh
    /// resolution cache of the given capacity.
    pub fn new(
        buf: Vec<u8>,
        endian: Endian,
        strings: Vec<String>,
        types: Vec<String>,
        decoder: D,
        cache_capacity: usize,
    ) -> (r: DexContext<D>)
        requires
            cache_capacity >= 1,
        ensures
            r.wf(),
            r@.data == buf@,
            r@.endian == endian,
            r@.strings == strings@.map_values(|s: String| s@),
            r@.types == types@.map_values(|s: String| s@),
            r.decoder == decoder,
    {
        DexContext { buf, endian, strings, types, decoder, cache: Cache::new(cache_capacity) }
    }

    /// Byte order of the image's fixed-width fields.
    pub fn get_endian(&self) -> (r: Endian)
        ensures
            r == self@.endian,
    {
        self.endian
    }

    /// Resolves an index into the string table, failing with `InvalidId`
    /// when the index is out of range.
    pub fn get_string(&self, idx: u64) -> (r: Result<String, Error>)
        ensures
            r is Ok <==> idx < self@.strings.len(),
            r matches Ok(s) ==> s@ == self@.strings[idx as int],
            r matches Err(e) ==> e.kind() == ErrKind::InvalidIndex,
    {
        if idx < self.strings.len() as u64 {
            Ok(self.strings[idx as usize].clone())
        } else {
            Err(Error::InvalidId("string index out of range".to_owned()))
        }
    }

    /// Resolves an index into the type table, failing with `InvalidId` when
    /// the index is out of range.
    pub fn get_type(&self, idx: u64) -> (r: Result<TypeRef, Error>)
        ensures
            r is Ok <==> idx < self@.types.len(),
            r matches Ok(t) ==> t@ == (SpecTypeRef {
                index: idx,
                descriptor: self@.types[idx as int],
            }),
            r matches Err(e) ==> e.kind() == ErrKind::InvalidIndex,
    {
        if idx < self.types.len() as u64 {
            Ok(TypeRef { index: idx, descriptor: self.types[idx as usize].clone() })
        } else {
            Err(Error::InvalidId("type index out of range".to_owned()))
        }
    }

    /// Resolves offset `offset` to an annotation item: on a cache miss the
    /// item is decoded at that offset and cached before it is returned, so
    /// any two successful resolutions of the same offset are structurally
    /// equal, and a successful resolution always leaves the entry cached
    /// for the next one.
    pub fn get_annotation_item(&mut self, offset: u32) -> (r: Result<AnnotationItem, Error>)
        requires
            old(self).wf(),
        ensures
            final(self).wf(),
            final(self)@ == old(self)@,
            final(self).decoder == old(self).decoder,
            r matches Ok(item) ==> resolve_item_at(&old(self).decoder, old(self)@, offset) == Ok::<
                SpecAnnotationItem,
                ErrKind,
            >(item@),
            r matches Err(e) ==> resolve_item_at(&old(self).decoder, old(self)@, offset) == Err::<
                SpecAnnotationItem,
                ErrKind,
            >(e.kind()),
            r is Ok ==> cache_map(final(self).cache).dom().contains(offset),
    {
        if offset as usize > self.buf.len() {
            return Err(
                Error::BadOffset(
                    offset as usize,
                    "annotation item offset outside the buffer".to_owned(),
                ),
            );
        }
        match self.cache.get(offset) {
            Some(CachedEntry::Item(item)) => Ok(item),
            _ => {
                match AnnotationItem::try_from_ctx(self, offset as usize) {
                    Ok((item, _n)) => {
                        let entry = CachedEntry::Item(item);
                        self.cache.put(offset, &entry);
                        match entry {
                            CachedEntry::Item(item) => Ok(item),
                            _ => vstd::pervasive::unreached(),
                        }
                    },
                    Err(e) => Err(e),
                }
            },
        }
    }

    /// Resolves offset `offset` to an annotation set, through the cache.
    pub fn get_annotation_set_item(&mut self, offset: u32) -> (r: Result<AnnotationSetItem, Error>)
        requires
            old(self).wf(),
        ensures
            final(self).wf(),
            final(self)@ == old(self)@,
            final(self).decoder == old(self).decoder,
            r matches Ok(s) ==> resolve_set_item_at(&old(self).decoder, old(self)@, offset) == Ok::<
                Seq<SpecAnnotationItem>,
                ErrKind,
            >(s@),
            r matches Err(e) ==> resolve_set_item_at(&old(self).decoder, old(self)@, offset)
                == Err::<Seq<SpecAnnotationItem>, ErrKind>(e.kind()),
            r is Ok ==> cache_map(final(self).cache).dom().contains(offset),
    {
        if offset as usize > self.buf.len() {
            return Err(
                Error::BadOffset(
                    offset as usize,
                    "annotation set offset outside the buffer".to_owned(),
                ),
            );
        }
        match self.cache.get(offset) {
            Some(CachedEntry::SetItem(s)) => Ok(s),
            _ => {
                match AnnotationSetItem::try_from_ctx(self, offset as usize) {
                    Ok((s, _n)) => {
                        let entry = CachedEntry::SetItem(s);
                        self.cache.put(offset, &entry);
                        match entry {
                            CachedEntry::SetItem(s) => Ok(s),
                            _ => vstd::pervasive::unreached(),
                        }
                    },
                    Err(e) => Err(e),
                }
            },
        }
    }

    /// Resolves offset `offset` to an annotation set reference list,
    /// through the cache.
    pub fn get_annotation_set_ref_list(&mut self, offset: u32) -> (r: Result<
        AnnotationSetRefList,
        Error,
    >)
        requires
            old(self).wf(),
        ensures
            final(self).wf(),
            final(self)@ == old(self)@,
            final(self).decoder == old(self).decoder,
            r matches Ok(l) ==> resolve_set_ref_list_at(&old(self).decoder, old(self)@, offset)
                == Ok::<Seq<Seq<SpecAnnotationItem>>, ErrKind>(l@),
            r matches Err(e) ==> resolve_set_ref_list_at(&old(self).decoder, old(self)@, offset)
                == Err::<Seq<Seq<SpecAnnotationItem>>, ErrKind>(e.kind()),
            r is Ok ==> cache_map(final(self).cache).dom().contains(offset),
    {
        if offset as usize > self.buf.len() {
            return Err(
                Error::BadOffset(
                    offset as usize,
                    "annotation set reference list offset outside the buffer".to_owned(),
                ),
            );
        }
        match self.cache.get(offset) {
            Some(CachedEntry::RefList(l)) => Ok(l),
            _ => {
                match AnnotationSetRefList::try_from_ctx(self, offset as usize) {
                    Ok((l, _n)) => {
                        let entry = CachedEntry::RefList(l);
                        self.cache.put(offset, &entry);
                        match entry {
                            CachedEntry::RefList(l) => Ok(l),
                            _ => vstd::pervasive::unreached(),
                        }
                    },
                    Err(e) => Err(e),
                }
            },
        }
    }
}

} // verus!
