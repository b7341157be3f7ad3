//! Annotations on a class, its fields, methods and method parameters, and
//! the directory that associates them.

use vstd::prelude::*;

use crate::codec::{read_u32, read_uleb, u32_at, uleb64_at};
use crate::context::{DexContext, DexView};
use crate::error::{ErrKind, Error};
use crate::jtype::{SpecTypeRef, TypeRef};
use crate::value::{EncodedValue, ValueDecoder};

verus! {

/// Mathematical model of an [`AnnotationElement`].
pub struct SpecAnnotationElement {
    pub name: Seq<char>,
    pub value: Seq<u8>,
}

/// One parameter of an annotation: a name resolved through the string table
/// and a tagged value decoded by the external value decoder.
#[derive(Debug, Clone, PartialEq)]
pub struct AnnotationElement {
    /// Name of the element.
    pub name: String,
    /// Value bound to the name.
    pub value: EncodedValue,
}

impl View for AnnotationElement {
    type V = SpecAnnotationElement;

    open spec fn view(&self) -> SpecAnnotationElement {
        SpecAnnotationElement { name: self.name@, value: self.value@ }
    }
}

impl AnnotationElement {
    /// Name of the element.
    pub fn name(&self) -> (r: &String)
        ensures
            r@ == self@.name,
    {
        &self.name
    }

    /// Value bound to the name.
    pub fn value(&self) -> (r: &EncodedValue)
        ensures
            r@ == self@.value,
    {
        &self.value
    }
}

/// Mathematical model of an [`EncodedAnnotation`].
pub struct SpecEncodedAnnotation {
    pub jtype: SpecTypeRef,
    pub elements: Seq<SpecAnnotationElement>,
}

/// The type and parameters of an annotation.
#[derive(Debug, Clone, PartialEq)]
pub struct EncodedAnnotation {
    /// Type of the annotation. Should be a class type.
    pub jtype: TypeRef,
    /// Elements of the annotation, in file order.
    pub elements: Vec<AnnotationElement>,
}

impl View for EncodedAnnotation {
    type V = SpecEncodedAnnotation;

    open spec fn view(&self) -> SpecEncodedAnnotation {
        SpecEncodedAnnotation {
            jtype: self.jtype@,
            elements: self.elements@.map_values(|e: AnnotationElement| e@),
        }
    }
}

/// The first element of `elements` whose name is `name`, or `None` when no
/// element carries that name.
pub open spec fn find_element_spec(elements: Seq<SpecAnnotationElement>, name: Seq<char>) -> Option<
    SpecAnnotationElement,
>
    decreases elements.len(),
{
    if elements.len() == 0 {
        None
    } else if elements[0].name == name {
        Some(elements[0])
    } else {
        find_element_spec(elements.drop_first(), name)
    }
}

impl EncodedAnnotation {
    /// Type of the annotation.
    pub fn jtype(&self) -> (r: &TypeRef)
        ensures
            r@ == self@.jtype,
    {
        &self.jtype
    }

    /// Elements of the annotation, in file order.
    pub fn elements(&self) -> (r: &Vec<AnnotationElement>)
        ensures
            r@.map_values(|e: AnnotationElement| e@) == self@.elements,
    {
        &self.elements
    }

    /// Finds the first element bound to `name`, scanning in element order.
    pub fn find_element(&self, name: &str) -> (r: Option<&AnnotationElement>)
        ensures
            match r {
                Some(e) => find_element_spec(self@.elements, name@) == Some(e@),
                None => find_element_spec(self@.elements, name@) is None,
            },
    {
        let target: String = name.to_owned();
        let ghost elems = self@.elements;
        proof {
            assert(elems.skip(0) =~= elems);
        }
        let mut j: usize = 0;
        while j < self.elements.len()
            invariant
                j <= self.elements.len(),
                elems == self@.elements,
                elems.len() == self.elements.len(),
                target@ == name@,
                forall|k: int| 0 <= k < j ==> #[trigger] elems[k].name != name@,
                find_element_spec(elems, name@) == find_element_spec(elems.skip(j as int), name@),
            decreases self.elements.len() - j,
        {
            proof {
                assert(elems.skip(j as int)[0] == elems[j as int]);
                assert(elems.skip(j as int).drop_first() =~= elems.skip(j + 1));
            }
            if self.elements[j].name == target {
                return Some(&self.elements[j]);
            }
            j += 1;
        }
        proof {
            assert(elems.skip(self.elements.len() as int) =~= Seq::<
                SpecAnnotationElement,
            >::empty());
        }
        None
    }
}

/// Visibility of an annotation. The byte codes 0, 1 and 2 stand for `Build`,
/// `Runtime` and `System`; no other code is legal.
#[derive(Debug, Clone, Copy, PartialEq, Eq, Structural)]
pub enum Visibility {
    /// Visible only to the build system.
    Build,
    /// Visible at runtime.
    Runtime,
    /// Visible only to the virtual machine.
    System,
}

/// The visibility named by byte code `b`, or `None` for an illegal code.
pub open spec fn visibility_of_byte(b: u8) -> Option<Visibility> {
    if b == 0 {
        Some(Visibility::Build)
    } else if b == 1 {
        Some(Visibility::Runtime)
    } else if b == 2 {
        Some(Visibility::System)
    } else {
        None
    }
}

/// Mathematical model of an [`AnnotationItem`].
pub struct SpecAnnotationItem {
    pub visibility: Visibility,
    pub annotation: SpecEncodedAnnotation,
}

/// An annotation along with its visibility.
#[derive(Debug, Clone, PartialEq)]
pub struct AnnotationItem {
    /// Visibility of this annotation.
    pub visibility: Visibility,
    /// Type and parameters of this annotation.
    pub annotation: EncodedAnnotation,
}

impl View for AnnotationItem {
    type V = SpecAnnotationItem;

    open spec fn view(&self) -> SpecAnnotationItem {
        SpecAnnotationItem { visibility: self.visibility, annotation: self.annotation@ }
    }
}

impl AnnotationItem {
    /// Visibility of this annotation.
    pub fn visibility(&self) -> (r: Visibility)
        ensures
            r == self@.visibility,
    {
        self.visibility
    }

    /// Type and parameters of this annotation.
    pub fn annotation(&self) -> (r: &EncodedAnnotation)
        ensures
            r@ == self@.annotation,
    {
        &self.annotation
    }
}

/// A set of annotations on one program element, in the file order of its
/// offset table. The table is not sorted and duplicate offsets are allowed.
#[derive(Debug, Clone, PartialEq)]
pub struct AnnotationSetItem {
    /// The resolved annotation items, in offset-table order.
    pub annotations: Vec<AnnotationItem>,
}

impl View for AnnotationSetItem {
    type V = Seq<SpecAnnotationItem>;

    open spec fn view(&self) -> Seq<SpecAnnotationItem> {
        self.annotations@.map_values(|a: AnnotationItem| a@)
    }
}

impl AnnotationSetItem {
    /// The resolved annotation items, in offset-table order.
    pub fn annotations(&self) -> (r: &Vec<AnnotationItem>)
        ensures
            r@.map_values(|a: AnnotationItem| a@) == self@,
    {
        &self.annotations
    }
}

impl Default for AnnotationSetItem {
    /// The empty annotation set.
    fn default() -> (r: Self)
        ensures
            r@ == Seq::<SpecAnnotationItem>::empty(),
    {
        let r = AnnotationSetItem { annotations: Vec::new() };
        proof {
            assert(r@ =~= Seq::<SpecAnnotationItem>::empty());
        }
        r
    }
}

/// A list of annotation sets; the index of each set is the position of the
/// formal method parameter it annotates.
#[derive(Debug, Clone, PartialEq)]
pub struct AnnotationSetRefList {
    /// One annotation set per formal parameter position.
    pub annotation_set_list: Vec<AnnotationSetItem>,
}

impl View for AnnotationSetRefList {
    type V = Seq<Seq<SpecAnnotationItem>>;

    open spec fn view(&self) -> Seq<Seq<SpecAnnotationItem>> {
        self.annotation_set_list@.map_values(|s: AnnotationSetItem| s@)
    }
}

impl AnnotationSetRefList {
    /// One annotation set per formal parameter position.
    pub fn annotation_set_list(&self) -> (r: &Vec<AnnotationSetItem>)
        ensures
            r@.map_values(|s: AnnotationSetItem| s@) == self@,
    {
        &self.annotation_set_list
    }
}

impl Default for AnnotationSetRefList {
    /// The empty list.
    fn default() -> (r: Self)
        ensures
            r@ == Seq::<Seq<SpecAnnotationItem>>::empty(),
    {
        let r = AnnotationSetRefList { annotation_set_list: Vec::new() };
        proof {
            assert(r@ =~= Seq::<Seq<SpecAnnotationItem>>::empty());
        }
        r
    }
}

/// Mathematical model of a [`FieldAnnotations`].
pub struct SpecFieldAnnotations {
    pub field_idx: u64,
    pub annotations: Seq<SpecAnnotationItem>,
}

/// Annotations of one field.
#[derive(Debug, Clone, PartialEq)]
pub struct FieldAnnotations {
    /// The field these annotations belong to.
    pub field_idx: u64,
    /// The annotations on the field.
    pub annotations: AnnotationSetItem,
}

impl View for FieldAnnotations {
    type V = SpecFieldAnnotations;

    open spec fn view(&self) -> SpecFieldAnnotations {
        SpecFieldAnnotations { field_idx: self.field_idx, annotations: self.annotations@ }
    }
}

impl FieldAnnotations {
    /// The field these annotations belong to.
    pub fn field_idx(&self) -> (r: u64)
        ensures
            r == self@.field_idx,
    {
        self.field_idx
    }

    /// The annotations on the field.
    pub fn annotations(&self) -> (r: &AnnotationSetItem)
        ensures
            r@ == self@.annotations,
    {
        &self.annotations
    }
}

/// Mathematical model of a [`MethodAnnotations`].
pub struct SpecMethodAnnotations {
    pub method_idx: u64,
    pub annotations: Seq<SpecAnnotationItem>,
}

/// Annotations of one method.
#[derive(Debug, Clone, PartialEq)]
pub struct MethodAnnotations {
    /// The method these annotations belong to.
    pub method_idx: u64,
    /// The annotations on the method.
    pub annotations: AnnotationSetItem,
}

impl View for MethodAnnotations {
    type V = SpecMethodAnnotations;

    open spec fn view(&self) -> SpecMethodAnnotations {
        SpecMethodAnnotations { method_idx: self.method_idx, annotations: self.annotations@ }
    }
}

impl MethodAnnotations {
    /// The method these annotations belong to.
    pub fn method_idx(&self) -> (r: u64)
        ensures
            r == self@.method_idx,
    {
        self.method_idx
    }

    /// The annotations on the method.
    pub fn annotations(&self) -> (r: &AnnotationSetItem)
        ensures
            r@ == self@.annotations,
    {
        &self.annotations
    }
}

/// Mathematical model of a [`ParameterAnnotations`].
pub struct SpecParameterAnnotations {
    pub method_idx: u64,
    pub annotations: Seq<Seq<SpecAnnotationItem>>,
}

/// Annotations of a method's parameters.
#[derive(Debug, Clone, PartialEq)]
pub struct ParameterAnnotations {
    /// The method whose parameters these annotations belong to.
    pub method_idx: u64,
    /// One annotation set per formal parameter position.
    pub annotations: AnnotationSetRefList,
}

impl View for ParameterAnnotations {
    type V = SpecParameterAnnotations;

    open spec fn view(&self) -> SpecParameterAnnotations {
        SpecParameterAnnotations { method_idx: self.method_idx, annotations: self.annotations@ }
    }
}

impl ParameterAnnotations {
    /// The method whose parameters these annotations belong to.
    pub fn method_idx(&self) -> (r: u64)
        ensures
            r == self@.method_idx,
    {
        self.method_idx
    }

    /// One annotation set per formal parameter position.
    pub fn annotations(&self) -> (r: &AnnotationSetRefList)
        ensures
            r@ == self@.annotations,
    {
        &self.annotations
    }
}

/// Mathematical model of an [`AnnotationsDirectoryItem`].
pub struct SpecAnnotationsDirectoryItem {
    pub class_annotations: Seq<SpecAnnotationItem>,
    pub field_annotations: Seq<SpecFieldAnnotations>,
    pub method_annotations: Seq<SpecMethodAnnotations>,
    pub parameter_annotations: Seq<SpecParameterAnnotations>,
}

/// Annotations of the fields, methods and parameters of a class, and of the
/// class itself.
#[derive(Debug, Clone, PartialEq)]
pub struct AnnotationsDirectoryItem {
    /// Annotations on the class itself; empty when the directory's class
    /// annotations offset is zero.
    pub class_annotations: AnnotationSetItem,
    /// Annotations of the class's fields.
    pub field_annotations: Vec<FieldAnnotations>,
    /// Annotations of the class's methods.
    pub method_annotations: Vec<MethodAnnotations>,
    /// Annotations of the parameters of the class's methods.
    pub parameter_annotations: Vec<ParameterAnnotations>,
}

impl View for AnnotationsDirectoryItem {
    type V = SpecAnnotationsDirectoryItem;

    open spec fn view(&self) -> SpecAnnotationsDirectoryItem {
        SpecAnnotationsDirectoryItem {
            class_annotations: self.class_annotations@,
            field_annotations: self.field_annotations@.map_values(|f: FieldAnnotations| f@),
            method_annotations: self.method_annotations@.map_values(|m: MethodAnnotations| m@),
            parameter_annotations: self.parameter_annotations@.map_values(
                |p: ParameterAnnotations| p@,
            ),
        }
    }
}

impl Default for AnnotationsDirectoryItem {
    /// The empty directory.
    fn default() -> (r: Self)
        ensures
            r@.class_annotations == Seq::<SpecAnnotationItem>::empty(),
            r@.field_annotations == Seq::<SpecFieldAnnotations>::empty(),
            r@.method_annotations == Seq::<SpecMethodAnnotations>::empty(),
            r@.parameter_annotations == Seq::<SpecParameterAnnotations>::empty(),
    {
        let r = AnnotationsDirectoryItem {
            class_annotations: AnnotationSetItem { annotations: Vec::new() },
            field_annotations: Vec::new(),
            method_annotations: Vec::new(),
            parameter_annotations: Vec::new(),
        };
        proof {
            assert(r@.class_annotations =~= Seq::<SpecAnnotationItem>::empty());
            assert(r@.field_annotations =~= Seq::<SpecFieldAnnotations>::empty());
            assert(r@.method_annotations =~= Seq::<SpecMethodAnnotations>::empty());
            assert(r@.parameter_annotations =~= Seq::<SpecParameterAnnotations>::empty());
        }
        r
    }
}

impl AnnotationElement {
    /// Decodes the annotation element at `pos`, returning it and the count
    /// of bytes consumed.
    pub fn try_from_ctx<D: ValueDecoder>(ctx: &DexContext<D>, pos: usize) -> (r: Result<
        (Self, usize),
        Error,
    >)
        ensures
            r matches Ok(p) ==> ann_elem_at(&ctx.decoder, ctx@, pos as int) == Ok::<
                (SpecAnnotationElement, nat),
                ErrKind,
            >((p.0@, p.1 as nat)) && pos + p.1 <= ctx@.data.len(),
            r matches Err(e) ==> ann_elem_at(&ctx.decoder, ctx@, pos as int) == Err::<
                (SpecAnnotationElement, nat),
                ErrKind,
            >(e.kind()),
    {
        proof {
            crate::codec::lemma_buf_len_fits(&ctx.buf);
        }
        let (sidx, n1) = match read_uleb(&ctx.buf, pos) {
            Ok(p) => p,
            Err(e) => return Err(e),
        };
        let name = match ctx.get_string(sidx) {
            Ok(s) => s,
            Err(e) => return Err(e),
        };
        let (value, n2) = match ctx.decoder.decode_value(&ctx.buf, pos + n1) {
            Ok(p) => p,
            Err(e) => return Err(e),
        };
        Ok((AnnotationElement { name, value }, n1 + n2))
    }
}

impl EncodedAnnotation {
    /// Decodes the encoded annotation at `pos`, returning it and the count
    /// of bytes consumed.
    #[verifier::loop_isolation(false)]
    pub fn try_from_ctx<D: ValueDecoder>(ctx: &DexContext<D>, pos: usize) -> (r: Result<
        (Self, usize),
        Error,
    >)
        ensures
            r matches Ok(p) ==> encoded_ann_at(&ctx.decoder, ctx@, pos as int) == Ok::<
                (SpecEncodedAnnotation, nat),
                ErrKind,
            >((p.0@, p.1 as nat)) && pos + p.1 <= ctx@.data.len(),
            r matches Err(e) ==> encoded_ann_at(&ctx.decoder, ctx@, pos as int) == Err::<
                (SpecEncodedAnnotation, nat),
                ErrKind,
            >(e.kind()),
    {
        proof {
            crate::codec::lemma_buf_len_fits(&ctx.buf);
        }
        let (tidx, n1) = match read_uleb(&ctx.buf, pos) {
            Ok(p) => p,
            Err(e) => return Err(e),
        };
        let jtype = match ctx.get_type(tidx) {
            Ok(t) => t,
            Err(e) => return Err(e),
        };
        let (size, n2) = match read_uleb(&ctx.buf, pos + n1) {
            Ok(p) => p,
            Err(e) => return Err(e),
        };
        let mut elements: Vec<AnnotationElement> = Vec::new();
        let start: usize = pos + n1 + n2;
        let mut cur: usize = start;
        let mut j: u64 = 0;
        while j < size
            invariant
                j <= size,
                start <= cur <= ctx.buf@.len(),
                elements@.len() == j,
                ({
                    let elems = elements@.map_values(|e: AnnotationElement| e@);
                    match ann_elems_at(&ctx.decoder, ctx@, cur as int, (size - j) as nat) {
                        Ok((rest, nr)) => ann_elems_at(
                            &ctx.decoder,
                            ctx@,
                            start as int,
                            size as nat,
                        ) == Ok::<(Seq<SpecAnnotationElement>, nat), ErrKind>(
                            (elems + rest, ((cur - start) + nr) as nat),
                        ),
                        Err(k) => ann_elems_at(&ctx.decoder, ctx@, start as int, size as nat)
                            == Err::<(Seq<SpecAnnotationElement>, nat), ErrKind>(k),
                    }
                }),
            decreases size - j,
        {
            match AnnotationElement::try_from_ctx(ctx, cur) {
                Ok((el, n)) => {
                    proof {
                        let f = |e: AnnotationElement| e@;
                        let before = elements@.map_values(f);
                        assert(elements@.push(el).map_values(f) =~= before.push(el@));
                        match ann_elems_at(&ctx.decoder, ctx@, cur + n, (size - j - 1) as nat) {
                            Ok((rest, nr)) => {
                                assert(before + (seq![el@] + rest) =~= before.push(el@) + rest);
                            },
                            Err(k) => {},
                        }
                    }
                    elements.push(el);
                    cur = cur + n;
                    j = j + 1;
                },
                Err(e) => {
                    return Err(e);
                },
            }
        }
        proof {
            let f = |e: AnnotationElement| e@;
            assert(elements@.map_values(f) + Seq::<SpecAnnotationElement>::empty()
                =~= elements@.map_values(f));
        }
        Ok((EncodedAnnotation { jtype, elements }, cur - pos))
    }
}

impl AnnotationItem {
    /// Decodes the annotation item at `pos`: one visibility byte, then the
    /// encoded annotation. A visibility byte outside the three legal codes
    /// fails with `InvalidId` rather than defaulting to any value.
    pub fn try_from_ctx<D: ValueDecoder>(ctx: &DexContext<D>, pos: usize) -> (r: Result<
        (Self, usize),
        Error,
    >)
        ensures
            r matches Ok(p) ==> ann_item_at(&ctx.decoder, ctx@, pos as int) == Ok::<
                (SpecAnnotationItem, nat),
                ErrKind,
            >((p.0@, p.1 as nat)) && pos + p.1 <= ctx@.data.len(),
            r matches Err(e) ==> ann_item_at(&ctx.decoder, ctx@, pos as int) == Err::<
                (SpecAnnotationItem, nat),
                ErrKind,
            >(e.kind()),
    {
        if pos >= ctx.buf.len() {
            return Err(Error::MalFormed("annotation item has no visibility byte".to_owned()));
        }
        let b = ctx.buf[pos];
        let visibility = if b == 0 {
            Visibility::Build
        } else if b == 1 {
            Visibility::Runtime
        } else if b == 2 {
            Visibility::System
        } else {
            return Err(Error::InvalidId("invalid visibility for annotation".to_owned()));
        };
        let (annotation, n) = match EncodedAnnotation::try_from_ctx(ctx, pos + 1) {
            Ok(p) => p,
            Err(e) => return Err(e),
        };
        Ok((AnnotationItem { visibility, annotation }, n + 1))
    }
}

impl AnnotationSetItem {
    /// Decodes the annotation set at `pos`: a fixed-width count, then that
    /// many fixed-width absolute offsets, each resolved through the
    /// context's cache to an annotation item, preserving table order.
    #[verifier::loop_isolation(false)]
    pub fn try_from_ctx<D: ValueDecoder>(ctx: &mut DexContext<D>, pos: usize) -> (r: Result<
        (Self, usize),
        Error,
    >)
        requires
            old(ctx).wf(),
        ensures
            final(ctx).wf(),
            final(ctx)@ == old(ctx)@,
            final(ctx).decoder == old(ctx).decoder,
            r matches Ok(p) ==> set_item_at(&old(ctx).decoder, old(ctx)@, pos as int) == Ok::<
                (Seq<SpecAnnotationItem>, nat),
                ErrKind,
            >((p.0@, p.1 as nat)) && pos + p.1 <= old(ctx)@.data.len(),
            r matches Err(e) ==> set_item_at(&old(ctx).decoder, old(ctx)@, pos as int) == Err::<
                (Seq<SpecAnnotationItem>, nat),
                ErrKind,
            >(e.kind()),
    {
        proof {
            crate::codec::lemma_buf_len_fits(&ctx.buf);
        }
        let count = match read_u32(&ctx.buf, pos, ctx.endian) {
            Ok(c) => c,
            Err(e) => return Err(e),
        };
        let total: u64 = 4 + 4 * (count as u64);
        if total > (ctx.buf.len() - pos) as u64 {
            return Err(
                Error::MalFormed("annotation set offset table runs past the buffer end".to_owned()),
            );
        }
        let mut annotations: Vec<AnnotationItem> = Vec::new();
        let mut tpos: usize = pos + 4;
        let mut j: u32 = 0;
        while j < count
            invariant
                ctx.wf(),
                ctx@ == old(ctx)@,
                ctx.decoder == old(ctx).decoder,
                j <= count,
                tpos == pos + 4 + 4 * (j as int),
                pos + 4 + 4 * (count as int) <= ctx.buf@.len(),
                annotations@.len() == j,
                ({
                    let items = annotations@.map_values(|a: AnnotationItem| a@);
                    match set_entries_at(&ctx.decoder, ctx@, tpos as int, (count - j) as nat) {
                        Ok(rest) => set_entries_at(
                            &ctx.decoder,
                            ctx@,
                            pos + 4,
                            count as nat,
                        ) == Ok::<Seq<SpecAnnotationItem>, ErrKind>(items + rest),
                        Err(k) => set_entries_at(&ctx.decoder, ctx@, pos + 4, count as nat)
                            == Err::<Seq<SpecAnnotationItem>, ErrKind>(k),
                    }
                }),
            decreases count - j,
        {
            let off = match read_u32(&ctx.buf, tpos, ctx.endian) {
                Ok(o) => o,
                Err(e) => {
                    proof {
                        assert(false);
                    }
                    return Err(e);
                },
            };
            match ctx.get_annotation_item(off) {
                Ok(item) => {
                    proof {
                        let f = |a: AnnotationItem| a@;
                        let before = annotations@.map_values(f);
                        assert(annotations@.push(item).map_values(f) =~= before.push(item@));
                        match set_entries_at(&ctx.decoder, ctx@, tpos + 4, (count - j - 1) as nat) {
                            Ok(rest) => {
                                assert(before + (seq![item@] + rest) =~= before.push(item@) + rest);
                            },
                            Err(k) => {},
                        }
                    }
                    annotations.push(item);
                    j = j + 1;
                    tpos = tpos + 4;
                },
                Err(e) => {
                    return Err(e);
                },
            }
        }
        proof {
            let f = |a: AnnotationItem| a@;
            assert(annotations@.map_values(f) + Seq::<SpecAnnotationItem>::empty()
                =~= annotations@.map_values(f));
        }
        Ok((AnnotationSetItem { annotations }, tpos - pos))
    }
}

impl AnnotationSetRefList {
    /// Decodes the annotation set reference list at `pos`: a fixed-width
    /// count, then that many fixed-width offsets, each resolved through the
    /// context's cache to an annotation set; the position of each entry is
    /// the formal parameter position it annotates.
    #[verifier::loop_isolation(false)]
    pub fn try_from_ctx<D: ValueDecoder>(ctx: &mut DexContext<D>, pos: usize) -> (r: Result<
        (Self, usize),
        Error,
    >)
        requires
            old(ctx).wf(),
        ensures
            final(ctx).wf(),
            final(ctx)@ == old(ctx)@,
            final(ctx).decoder == old(ctx).decoder,
            r matches Ok(p) ==> set_ref_list_at(&old(ctx).decoder, old(ctx)@, pos as int) == Ok::<
                (Seq<Seq<SpecAnnotationItem>>, nat),
                ErrKind,
            >((p.0@, p.1 as nat)) && pos + p.1 <= old(ctx)@.data.len(),
            r matches Err(e) ==> set_ref_list_at(&old(ctx).decoder, old(ctx)@, pos as int) == Err::<
                (Seq<Seq<SpecAnnotationItem>>, nat),
                ErrKind,
            >(e.kind()),
    {
        proof {
            crate::codec::lemma_buf_len_fits(&ctx.buf);
        }
        let count = match read_u32(&ctx.buf, pos, ctx.endian) {
            Ok(c) => c,
            Err(e) => return Err(e),
        };
        let total: u64 = 4 + 4 * (count as u64);
        if total > (ctx.buf.len() - pos) as u64 {
            return Err(
                Error::MalFormed(
                    "annotation set reference table runs past the buffer end".to_owned(),
                ),
            );
        }
        let mut annotation_set_list: Vec<AnnotationSetItem> = Vec::new();
        let mut tpos: usize = pos + 4;
        let mut j: u32 = 0;
        while j < count
            invariant
                ctx.wf(),
                ctx@ == old(ctx)@,
                ctx.decoder == old(ctx).decoder,
                j <= count,
                tpos == pos + 4 + 4 * (j as int),
                pos + 4 + 4 * (count as int) <= ctx.buf@.len(),
                annotation_set_list@.len() == j,
                ({
                    let sets = annotation_set_list@.map_values(|s: AnnotationSetItem| s@);
                    match ref_entries_at(&ctx.decoder, ctx@, tpos as int, (count - j) as nat) {
                        Ok(rest) => ref_entries_at(
                            &ctx.decoder,
                            ctx@,
                            pos + 4,
                            count as nat,
                        ) == Ok::<Seq<Seq<SpecAnnotationItem>>, ErrKind>(sets + rest),
                        Err(k) => ref_entries_at(&ctx.decoder, ctx@, pos + 4, count as nat)
                            == Err::<Seq<Seq<SpecAnnotationItem>>, ErrKind>(k),
                    }
                }),
            decreases count - j,
        {
            let off = match read_u32(&ctx.buf, tpos, ctx.endian) {
                Ok(o) => o,
                Err(e) => {
                    proof {
                        assert(false);
                    }
                    return Err(e);
                },
            };
            match ctx.get_annotation_set_item(off) {
                Ok(s) => {
                    proof {
                        let f = |s: AnnotationSetItem| s@;
                        let before = annotation_set_list@.map_values(f);
                        assert(annotation_set_list@.push(s).map_values(f) =~= before.push(s@));
                        match ref_entries_at(&ctx.decoder, ctx@, tpos + 4, (count - j - 1) as nat) {
                            Ok(rest) => {
                                assert(before + (seq![s@] + rest) =~= before.push(s@) + rest);
                            },
                            Err(k) => {},
                        }
                    }
                    annotation_set_list.push(s);
                    j = j + 1;
                    tpos = tpos + 4;
                },
                Err(e) => {
                    return Err(e);
                },
            }
        }
        proof {
            let f = |s: AnnotationSetItem| s@;
            assert(annotation_set_list@.map_values(f) + Seq::<Seq<SpecAnnotationItem>>::empty()
                =~= annotation_set_list@.map_values(f));
        }
        Ok((AnnotationSetRefList { annotation_set_list }, tpos - pos))
    }
}

impl FieldAnnotations {
    /// Decodes the field-annotations record at `pos`: a fixed-width field
    /// index, then a fixed-width offset resolved to an annotation set.
    pub fn try_from_ctx<D: ValueDecoder>(ctx: &mut DexContext<D>, pos: usize) -> (r: Result<
        (Self, usize),
        Error,
    >)
        requires
            old(ctx).wf(),
        ensures
            final(ctx).wf(),
            final(ctx)@ == old(ctx)@,
            final(ctx).decoder == old(ctx).decoder,
            r matches Ok(p) ==> field_annotations_at(&old(ctx).decoder, old(ctx)@, pos as int)
                == Ok::<(SpecFieldAnnotations, nat), ErrKind>((p.0@, p.1 as nat)) && pos + p.1
                <= old(ctx)@.data.len(),
            r matches Err(e) ==> field_annotations_at(&old(ctx).decoder, old(ctx)@, pos as int)
                == Err::<(SpecFieldAnnotations, nat), ErrKind>(e.kind()),
    {
        proof {
            crate::codec::lemma_buf_len_fits(&ctx.buf);
        }
        let field_idx = match read_u32(&ctx.buf, pos, ctx.endian) {
            Ok(x) => x,
            Err(e) => return Err(e),
        };
        let off = match read_u32(&ctx.buf, pos + 4, ctx.endian) {
            Ok(o) => o,
            Err(e) => return Err(e),
        };
        match ctx.get_annotation_set_item(off) {
            Ok(annotations) => Ok((FieldAnnotations { field_idx: field_idx as u64, annotations }, 8)),
            Err(e) => Err(e),
        }
    }
}

impl MethodAnnotations {
    /// Decodes the method-annotations record at `pos`: a fixed-width method
    /// index, then a fixed-width offset resolved to an annotation set.
    pub fn try_from_ctx<D: ValueDecoder>(ctx: &mut DexContext<D>, pos: usize) -> (r: Result<
        (Self, usize),
        Error,
    >)
        requires
            old(ctx).wf(),
        ensures
            final(ctx).wf(),
            final(ctx)@ == old(ctx)@,
            final(ctx).decoder == old(ctx).decoder,
            r matches Ok(p) ==> method_annotations_at(&old(ctx).decoder, old(ctx)@, pos as int)
                == Ok::<(SpecMethodAnnotations, nat), ErrKind>((p.0@, p.1 as nat)) && pos + p.1
                <= old(ctx)@.data.len(),
            r matches Err(e) ==> method_annotations_at(&old(ctx).decoder, old(ctx)@, pos as int)
                == Err::<(SpecMethodAnnotations, nat), ErrKind>(e.kind()),
    {
        proof {
            crate::codec::lemma_buf_len_fits(&ctx.buf);
        }
        let method_idx = match read_u32(&ctx.buf, pos, ctx.endian) {
            Ok(x) => x,
            Err(e) => return Err(e),
        };
        let off = match read_u32(&ctx.buf, pos + 4, ctx.endian) {
            Ok(o) => o,
            Err(e) => return Err(e),
        };
        match ctx.get_annotation_set_item(off) {
            Ok(annotations) => Ok(
                (MethodAnnotations { method_idx: method_idx as u64, annotations }, 8),
            ),
            Err(e) => Err(e),
        }
    }
}

impl ParameterAnnotations {
    /// Decodes the parameter-annotations record at `pos`: a fixed-width
    /// method index, then a fixed-width offset resolved to an annotation
    /// set reference list.
    pub fn try_from_ctx<D: ValueDecoder>(ctx: &mut DexContext<D>, pos: usize) -> (r: Result<
        (Self, usize),
        Error,
    >)
        requires
            old(ctx).wf(),
        ensures
            final(ctx).wf(),
            final(ctx)@ == old(ctx)@,
            final(ctx).decoder == old(ctx).decoder,
            r matches Ok(p) ==> parameter_annotations_at(&old(ctx).decoder, old(ctx)@, pos as int)
                == Ok::<(SpecParameterAnnotations, nat), ErrKind>((p.0@, p.1 as nat)) && pos + p.1
                <= old(ctx)@.data.len(),
            r matches Err(e) ==> parameter_annotations_at(&old(ctx).decoder, old(ctx)@, pos as int)
                == Err::<(SpecParameterAnnotations, nat), ErrKind>(e.kind()),
    {
        proof {
            crate::codec::lemma_buf_len_fits(&ctx.buf);
        }
        let method_idx = match read_u32(&ctx.buf, pos, ctx.endian) {
            Ok(x) => x,
            Err(e) => return Err(e),
        };
        let off = match read_u32(&ctx.buf, pos + 4, ctx.endian) {
            Ok(o) => o,
            Err(e) => return Err(e),
        };
        match ctx.get_annotation_set_ref_list(off) {
            Ok(annotations) => Ok(
                (ParameterAnnotations { method_idx: method_idx as u64, annotations }, 8),
            ),
            Err(e) => Err(e),
        }
    }
}

/// Decodes `count` field-annotations records encoded back to back from
/// `start`, returning them and the count of bytes consumed.
#[verifier::loop_isolation(false)]
fn decode_field_records<D: ValueDecoder>(ctx: &mut DexContext<D>, start: usize, count: u32) -> (r:
    Result<(Vec<FieldAnnotations>, usize), Error>)
    requires
        old(ctx).wf(),
        start <= old(ctx)@.data.len(),
    ensures
        final(ctx).wf(),
        final(ctx)@ == old(ctx)@,
        final(ctx).decoder == old(ctx).decoder,
        r matches Ok(p) ==> field_annotations_seq_at(
            &old(ctx).decoder,
            old(ctx)@,
            start as int,
            count as nat,
        ) == Ok::<(Seq<SpecFieldAnnotations>, nat), ErrKind>(
            (p.0@.map_values(|f: FieldAnnotations| f@), p.1 as nat),
        ) && start + p.1 <= old(ctx)@.data.len(),
        r matches Err(e) ==> field_annotations_seq_at(
            &old(ctx).decoder,
            old(ctx)@,
            start as int,
            count as nat,
        ) == Err::<(Seq<SpecFieldAnnotations>, nat), ErrKind>(e.kind()),
{
    proof {
        crate::codec::lemma_buf_len_fits(&ctx.buf);
    }
    let mut records: Vec<FieldAnnotations> = Vec::new();
    let mut cur: usize = start;
    let mut j: u32 = 0;
    while j < count
        invariant
            ctx.wf(),
            ctx@ == old(ctx)@,
            ctx.decoder == old(ctx).decoder,
            j <= count,
            start <= cur <= ctx.buf@.len(),
            records@.len() == j,
            ({
                let fs = records@.map_values(|f: FieldAnnotations| f@);
                match field_annotations_seq_at(&ctx.decoder, ctx@, cur as int, (count - j) as nat) {
                    Ok((rest, nr)) => field_annotations_seq_at(
                        &ctx.decoder,
                        ctx@,
                        start as int,
                        count as nat,
                    ) == Ok::<(Seq<SpecFieldAnnotations>, nat), ErrKind>(
                        (fs + rest, ((cur - start) + nr) as nat),
                    ),
                    Err(k) => field_annotations_seq_at(
                        &ctx.decoder,
                        ctx@,
                        start as int,
                        count as nat,
                    ) == Err::<(Seq<SpecFieldAnnotations>, nat), ErrKind>(k),
                }
            }),
        decreases count - j,
    {
        match FieldAnnotations::try_from_ctx(ctx, cur) {
            Ok((f, n)) => {
                proof {
                    let g = |f: FieldAnnotations| f@;
                    let before = records@.map_values(g);
                    assert(records@.push(f).map_values(g) =~= before.push(f@));
                    match field_annotations_seq_at(
                        &ctx.decoder,
                        ctx@,
                        cur + n,
                        (count - j - 1) as nat,
                    ) {
                        Ok((rest, nr)) => {
                            assert(before + (seq![f@] + rest) =~= before.push(f@) + rest);
                        },
                        Err(k) => {},
                    }
                }
                records.push(f);
                cur = cur + n;
                j = j + 1;
            },
            Err(e) => {
                return Err(e);
            },
        }
    }
    proof {
        let g = |f: FieldAnnotations| f@;
        assert(records@.map_values(g) + Seq::<SpecFieldAnnotations>::empty() =~= records@.map_values(
            g,
        ));
    }
    Ok((records, cur - start))
}

/// Decodes `count` method-annotations records encoded back to back from
/// `start`, returning them and the count of bytes consumed.
#[verifier::loop_isolation(false)]
fn decode_method_records<D: ValueDecoder>(ctx: &mut DexContext<D>, start: usize, count: u32) -> (r:
    Result<(Vec<MethodAnnotations>, usize), Error>)
    requires
        old(ctx).wf(),
        start <= old(ctx)@.data.len(),
    ensures
        final(ctx).wf(),
        final(ctx)@ == old(ctx)@,
        final(ctx).decoder == old(ctx).decoder,
        r matches Ok(p) ==> method_annotations_seq_at(
            &old(ctx).decoder,
            old(ctx)@,
            start as int,
            count as nat,
        ) == Ok::<(Seq<SpecMethodAnnotations>, nat), ErrKind>(
            (p.0@.map_values(|m: MethodAnnotations| m@), p.1 as nat),
        ) && start + p.1 <= old(ctx)@.data.len(),
        r matches Err(e) ==> method_annotations_seq_at(
            &old(ctx).decoder,
            old(ctx)@,
            start as int,
            count as nat,
        ) == Err::<(Seq<SpecMethodAnnotations>, nat), ErrKind>(e.kind()),
{
    proof {
        crate::codec::lemma_buf_len_fits(&ctx.buf);
    }
    let mut records: Vec<MethodAnnotations> = Vec::new();
    let mut cur: usize = start;
    let mut j: u32 = 0;
    while j < count
        invariant
            ctx.wf(),
            ctx@ == old(ctx)@,
            ctx.decoder == old(ctx).decoder,
            j <= count,
            start <= cur <= ctx.buf@.len(),
            records@.len() == j,
            ({
                let ms = records@.map_values(|m: MethodAnnotations| m@);
                match method_annotations_seq_at(&ctx.decoder, ctx@, cur as int, (count - j) as nat) {
                    Ok((rest, nr)) => method_annotations_seq_at(
                        &ctx.decoder,
                        ctx@,
                        start as int,
                        count as nat,
                    ) == Ok::<(Seq<SpecMethodAnnotations>, nat), ErrKind>(
                        (ms + rest, ((cur - start) + nr) as nat),
                    ),
                    Err(k) => method_annotations_seq_at(
                        &ctx.decoder,
                        ctx@,
                        start as int,
                        count as nat,
                    ) == Err::<(Seq<SpecMethodAnnotations>, nat), ErrKind>(k),
                }
            }),
        decreases count - j,
    {
        match MethodAnnotations::try_from_ctx(ctx, cur) {
            Ok((m, n)) => {
                proof {
                    let g = |m: MethodAnnotations| m@;
                    let before = records@.map_values(g);
                    assert(records@.push(m).map_values(g) =~= before.push(m@));
                    match method_annotations_seq_at(
                        &ctx.decoder,
                        ctx@,
                        cur + n,
                        (count - j - 1) as nat,
                    ) {
                        Ok((rest, nr)) => {
                            assert(before + (seq![m@] + rest) =~= before.push(m@) + rest);
                        },
                        Err(k) => {},
                    }
                }
                records.push(m);
                cur = cur + n;
                j = j + 1;
            },
            Err(e) => {
                return Err(e);
            },
        }
    }
    proof {
        let g = |m: MethodAnnotations| m@;
        assert(records@.map_values(g) + Seq::<SpecMethodAnnotations>::empty()
            =~= records@.map_values(g));
    }
    Ok((records, cur - start))
}

/// Decodes `count` parameter-annotations records encoded back to back from
/// `start`, returning them and the count of bytes consumed.
#[verifier::loop_isolation(false)]
fn decode_parameter_records<D: ValueDecoder>(ctx: &mut DexContext<D>, start: usize, count: u32) -> (
    r: Result<(Vec<ParameterAnnotations>, usize), Error>)
    requires
        old(ctx).wf(),
        start <= old(ctx)@.data.len(),
    ensures
        final(ctx).wf(),
        final(ctx)@ == old(ctx)@,
        final(ctx).decoder == old(ctx).decoder,
        r matches Ok(p) ==> parameter_annotations_seq_at(
            &old(ctx).decoder,
            old(ctx)@,
            start as int,
            count as nat,
        ) == Ok::<(Seq<SpecParameterAnnotations>, nat), ErrKind>(
            (p.0@.map_values(|q: ParameterAnnotations| q@), p.1 as nat),
        ) && start + p.1 <= old(ctx)@.data.len(),
        r matches Err(e) ==> parameter_annotations_seq_at(
            &old(ctx).decoder,
            old(ctx)@,
            start as int,
            count as nat,
        ) == Err::<(Seq<SpecParameterAnnotations>, nat), ErrKind>(e.kind()),
{
    proof {
        crate::codec::lemma_buf_len_fits(&ctx.buf);
    }
    let mut records: Vec<ParameterAnnotations> = Vec::new();
    let mut cur: usize = start;
    let mut j: u32 = 0;
    while j < count
        invariant
            ctx.wf(),
            ctx@ == old(ctx)@,
            ctx.decoder == old(ctx).decoder,
            j <= count,
            start <= cur <= ctx.buf@.len(),
            records@.len() == j,
            ({
                let ps = records@.map_values(|q: ParameterAnnotations| q@);
                match parameter_annotations_seq_at(
                    &ctx.decoder,
                    ctx@,
                    cur as int,
                    (count - j) as nat,
                ) {
                    Ok((rest, nr)) => parameter_annotations_seq_at(
                        &ctx.decoder,
                        ctx@,
                        start as int,
                        count as nat,
                    ) == Ok::<(Seq<SpecParameterAnnotations>, nat), ErrKind>(
                        (ps + rest, ((cur - start) + nr) as nat),
                    ),
                    Err(k) => parameter_annotations_seq_at(
                        &ctx.decoder,
                        ctx@,
                        start as int,
                        count as nat,
                    ) == Err::<(Seq<SpecParameterAnnotations>, nat), ErrKind>(k),
                }
            }),
        decreases count - j,
    {
        match ParameterAnnotations::try_from_ctx(ctx, cur) {
            Ok((q, n)) => {
                proof {
                    let g = |q: ParameterAnnotations| q@;
                    let before = records@.map_values(g);
                    assert(records@.push(q).map_values(g) =~= before.push(q@));
                    match parameter_annotations_seq_at(
                        &ctx.decoder,
                        ctx@,
                        cur + n,
                        (count - j - 1) as nat,
                    ) {
                        Ok((rest, nr)) => {
                            assert(before + (seq![q@] + rest) =~= before.push(q@) + rest);
                        },
                        Err(k) => {},
                    }
                }
                records.push(q);
                cur = cur + n;
                j = j + 1;
            },
            Err(e) => {
                return Err(e);
            },
        }
    }
    proof {
        let g = |q: ParameterAnnotations| q@;
        assert(records@.map_values(g) + Seq::<SpecParameterAnnotations>::empty()
            =~= records@.map_values(g));
    }
    Ok((records, cur - start))
}

impl AnnotationsDirectoryItem {
    /// Decodes the annotations directory at `pos`: a four-field fixed-width
    /// header, the class annotation set (a class annotations offset of zero
    /// yields the empty set, not an error), then the field, method and
    /// parameter records, in that fixed order.
    pub fn try_from_ctx<D: ValueDecoder>(ctx: &mut DexContext<D>, pos: usize) -> (r: Result<
        (Self, usize),
        Error,
    >)
        requires
            old(ctx).wf(),
        ensures
            final(ctx).wf(),
            final(ctx)@ == old(ctx)@,
            final(ctx).decoder == old(ctx).decoder,
            r matches Ok(p) ==> directory_at(&old(ctx).decoder, old(ctx)@, pos as int) == Ok::<
                (SpecAnnotationsDirectoryItem, nat),
                ErrKind,
            >((p.0@, p.1 as nat)) && pos + p.1 <= old(ctx)@.data.len(),
            r matches Err(e) ==> directory_at(&old(ctx).decoder, old(ctx)@, pos as int) == Err::<
                (SpecAnnotationsDirectoryItem, nat),
                ErrKind,
            >(e.kind()),
    {
        proof {
            crate::codec::lemma_buf_len_fits(&ctx.buf);
        }
        let class_off = match read_u32(&ctx.buf, pos, ctx.endian) {
            Ok(x) => x,
            Err(e) => return Err(e),
        };
        if ctx.buf.len() - pos < 16 {
            return Err(Error::MalFormed("annotations directory header is truncated".to_owned()));
        }
        let fields_count = match read_u32(&ctx.buf, pos + 4, ctx.endian) {
            Ok(x) => x,
            Err(e) => {
                proof {
                    assert(false);
                }
                return Err(e);
            },
        };
        let methods_count = match read_u32(&ctx.buf, pos + 8, ctx.endian) {
            Ok(x) => x,
            Err(e) => {
                proof {
                    assert(false);
                }
                return Err(e);
            },
        };
        let params_count = match read_u32(&ctx.buf, pos + 12, ctx.endian) {
            Ok(x) => x,
            Err(e) => {
                proof {
                    assert(false);
                }
                return Err(e);
            },
        };
        let class_annotations = if class_off == 0 {
            let empty = AnnotationSetItem { annotations: Vec::new() };
            proof {
                assert(empty@ =~= Seq::<SpecAnnotationItem>::empty());
            }
            empty
        } else {
            match ctx.get_annotation_set_item(class_off) {
                Ok(s) => s,
                Err(e) => return Err(e),
            }
        };
        let (field_annotations, n1) = match decode_field_records(ctx, pos + 16, fields_count) {
            Ok(p) => p,
            Err(e) => return Err(e),
        };
        let (method_annotations, n2) = match decode_method_records(
            ctx,
            pos + 16 + n1,
            methods_count,
        ) {
            Ok(p) => p,
            Err(e) => return Err(e),
        };
        let (parameter_annotations, n3) = match decode_parameter_records(
            ctx,
            pos + 16 + n1 + n2,
            params_count,
        ) {
            Ok(p) => p,
            Err(e) => return Err(e),
        };
        Ok(
            (
                AnnotationsDirectoryItem {
                    class_annotations,
                    field_annotations,
                    method_annotations,
                    parameter_annotations,
                },
                16 + n1 + n2 + n3,
            ),
        )
    }
}

/// The annotation element encoded in `v.data` starting at `i`: an unsigned
/// varint string-table index, then one tagged value decoded by `d`.
pub open spec fn ann_elem_at<D: ValueDecoder>(d: &D, v: DexView, i: int) -> Result<
    (SpecAnnotationElement, nat),
    ErrKind,
> {
    match uleb64_at(v.data, i) {
        Ok((sidx, n1)) => if sidx >= v.strings.len() {
            Err(ErrKind::InvalidIndex)
        } else {
            match d.value_spec(v.data, i + n1) {
                Ok((val, n2)) => Ok(
                    (
                        SpecAnnotationElement { name: v.strings[sidx as int], value: val },
                        (n1 + n2) as nat,
                    ),
                ),
                Err(k) => Err(k),
            }
        },
        Err(k) => Err(k),
    }
}

/// `count` annotation elements encoded back to back starting at `i`.
pub open spec fn ann_elems_at<D: ValueDecoder>(d: &D, v: DexView, i: int, count: nat) -> Result<
    (Seq<SpecAnnotationElement>, nat),
    ErrKind,
>
    decreases count,
{
    if count == 0 {
        Ok((Seq::empty(), 0))
    } else {
        match ann_elem_at(d, v, i) {
            Ok((e, n)) => match ann_elems_at(d, v, i + n, (count - 1) as nat) {
                Ok((rest, nr)) => Ok((seq![e] + rest, (n + nr) as nat)),
                Err(k) => Err(k),
            },
            Err(k) => Err(k),
        }
    }
}

/// The encoded annotation starting at `i`: an unsigned varint type-table
/// index, an unsigned varint element count, then that many elements.
pub open spec fn encoded_ann_at<D: ValueDecoder>(d: &D, v: DexView, i: int) -> Result<
    (SpecEncodedAnnotation, nat),
    ErrKind,
> {
    match uleb64_at(v.data, i) {
        Ok((tidx, n1)) => if tidx >= v.types.len() {
            Err(ErrKind::InvalidIndex)
        } else {
            match uleb64_at(v.data, i + n1) {
                Ok((size, n2)) => match ann_elems_at(d, v, i + n1 + n2, size as nat) {
                    Ok((elems, n3)) => Ok(
                        (
                            SpecEncodedAnnotation {
                                jtype: SpecTypeRef {
                                    index: tidx,
                                    descriptor: v.types[tidx as int],
                                },
                                elements: elems,
                            },
                            (n1 + n2 + n3) as nat,
                        ),
                    ),
                    Err(k) => Err(k),
                },
                Err(k) => Err(k),
            }
        },
        Err(k) => Err(k),
    }
}

/// The annotation item starting at `i`: one visibility byte, then an
/// encoded annotation. A byte outside the three legal visibility codes
/// fails with `InvalidIndex`.
pub open spec fn ann_item_at<D: ValueDecoder>(d: &D, v: DexView, i: int) -> Result<
    (SpecAnnotationItem, nat),
    ErrKind,
> {
    if i < 0 || i >= v.data.len() {
        Err(ErrKind::Malformed)
    } else {
        match visibility_of_byte(v.data[i]) {
            Some(vis) => match encoded_ann_at(d, v, i + 1) {
                Ok((ann, n)) => Ok(
                    (SpecAnnotationItem { visibility: vis, annotation: ann }, (n + 1) as nat),
                ),
                Err(k) => Err(k),
            },
            None => Err(ErrKind::InvalidIndex),
        }
    }
}

/// Resolution of offset `off` to an annotation item: the offset must lie
/// inside the buffer (else `BadOffset`), and the item is decoded there.
pub open spec fn resolve_item_at<D: ValueDecoder>(d: &D, v: DexView, off: u32) -> Result<
    SpecAnnotationItem,
    ErrKind,
> {
    if off > v.data.len() {
        Err(ErrKind::BadOffset)
    } else {
        match ann_item_at(d, v, off as int) {
            Ok((item, n)) => Ok(item),
            Err(k) => Err(k),
        }
    }
}

/// `count` offset-table entries starting at `p`, each a fixed-width offset
/// resolved to an annotation item, in table order.
pub open spec fn set_entries_at<D: ValueDecoder>(d: &D, v: DexView, p: int, count: nat) -> Result<
    Seq<SpecAnnotationItem>,
    ErrKind,
>
    decreases count,
{
    if count == 0 {
        Ok(Seq::empty())
    } else {
        match resolve_item_at(d, v, u32_at(v.data, p, v.endian)) {
            Ok(item) => match set_entries_at(d, v, p + 4, (count - 1) as nat) {
                Ok(rest) => Ok(seq![item] + rest),
                Err(k) => Err(k),
            },
            Err(k) => Err(k),
        }
    }
}

/// The annotation set starting at `i`: a fixed-width count, that many
/// fixed-width absolute offsets, each resolved to an annotation item in
/// table order.
pub open spec fn set_item_at<D: ValueDecoder>(d: &D, v: DexView, i: int) -> Result<
    (Seq<SpecAnnotationItem>, nat),
    ErrKind,
> {
    if i < 0 || i + 4 > v.data.len() {
        Err(ErrKind::Malformed)
    } else {
        let count = u32_at(v.data, i, v.endian) as int;
        if i + 4 + 4 * count > v.data.len() {
            Err(ErrKind::Malformed)
        } else {
            match set_entries_at(d, v, i + 4, count as nat) {
                Ok(items) => Ok((items, (4 + 4 * count) as nat)),
                Err(k) => Err(k),
            }
        }
    }
}

/// Resolution of offset `off` to an annotation set.
pub open spec fn resolve_set_item_at<D: ValueDecoder>(d: &D, v: DexView, off: u32) -> Result<
    Seq<SpecAnnotationItem>,
    ErrKind,
> {
    if off > v.data.len() {
        Err(ErrKind::BadOffset)
    } else {
        match set_item_at(d, v, off as int) {
            Ok((items, n)) => Ok(items),
            Err(k) => Err(k),
        }
    }
}

/// `count` offset-table entries starting at `p`, each resolved to an
/// annotation set; the entry's position is the formal parameter position.
pub open spec fn ref_entries_at<D: ValueDecoder>(d: &D, v: DexView, p: int, count: nat) -> Result<
    Seq<Seq<SpecAnnotationItem>>,
    ErrKind,
>
    decreases count,
{
    if count == 0 {
        Ok(Seq::empty())
    } else {
        match resolve_set_item_at(d, v, u32_at(v.data, p, v.endian)) {
            Ok(s) => match ref_entries_at(d, v, p + 4, (count - 1) as nat) {
                Ok(rest) => Ok(seq![s] + rest),
                Err(k) => Err(k),
            },
            Err(k) => Err(k),
        }
    }
}

/// The annotation set reference list starting at `i`: a fixed-width count,
/// then that many fixed-width offsets, each resolved to an annotation set.
pub open spec fn set_ref_list_at<D: ValueDecoder>(d: &D, v: DexView, i: int) -> Result<
    (Seq<Seq<SpecAnnotationItem>>, nat),
    ErrKind,
> {
    if i < 0 || i + 4 > v.data.len() {
        Err(ErrKind::Malformed)
    } else {
        let count = u32_at(v.data, i, v.endian) as int;
        if i + 4 + 4 * count > v.data.len() {
            Err(ErrKind::Malformed)
        } else {
            match ref_entries_at(d, v, i + 4, count as nat) {
                Ok(sets) => Ok((sets, (4 + 4 * count) as nat)),
                Err(k) => Err(k),
            }
        }
    }
}

/// Resolution of offset `off` to an annotation set reference list.
pub open spec fn resolve_set_ref_list_at<D: ValueDecoder>(d: &D, v: DexView, off: u32) -> Result<
    Seq<Seq<SpecAnnotationItem>>,
    ErrKind,
> {
    if off > v.data.len() {
        Err(ErrKind::BadOffset)
    } else {
        match set_ref_list_at(d, v, off as int) {
            Ok((sets, n)) => Ok(sets),
            Err(k) => Err(k),
        }
    }
}

/// The field-annotations record starting at `i`: a fixed-width field index
/// and a fixed-width offset resolved to an annotation set.
pub open spec fn field_annotations_at<D: ValueDecoder>(d: &D, v: DexView, i: int) -> Result<
    (SpecFieldAnnotations, nat),
    ErrKind,
> {
    if i < 0 || i + 8 > v.data.len() {
        Err(ErrKind::Malformed)
    } else {
        match resolve_set_item_at(d, v, u32_at(v.data, i + 4, v.endian)) {
            Ok(s) => Ok(
                (
                    SpecFieldAnnotations {
                        field_idx: u32_at(v.data, i, v.endian) as u64,
                        annotations: s,
                    },
                    8,
                ),
            ),
            Err(k) => Err(k),
        }
    }
}

/// `count` field-annotations records encoded back to back starting at `i`.
pub open spec fn field_annotations_seq_at<D: ValueDecoder>(
    d: &D,
    v: DexView,
    i: int,
    count: nat,
) -> Result<(Seq<SpecFieldAnnotations>, nat), ErrKind>
    decreases count,
{
    if count == 0 {
        Ok((Seq::empty(), 0))
    } else {
        match field_annotations_at(d, v, i) {
            Ok((f, n)) => match field_annotations_seq_at(d, v, i + n, (count - 1) as nat) {
                Ok((rest, nr)) => Ok((seq![f] + rest, (n + nr) as nat)),
                Err(k) => Err(k),
            },
            Err(k) => Err(k),
        }
    }
}

/// The method-annotations record starting at `i`: a fixed-width method
/// index and a fixed-width offset resolved to an annotation set.
pub open spec fn method_annotations_at<D: ValueDecoder>(d: &D, v: DexView, i: int) -> Result<
    (SpecMethodAnnotations, nat),
    ErrKind,
> {
    if i < 0 || i + 8 > v.data.len() {
        Err(ErrKind::Malformed)
    } else {
        match resolve_set_item_at(d, v, u32_at(v.data, i + 4, v.endian)) {
            Ok(s) => Ok(
                (
                    SpecMethodAnnotations {
                        method_idx: u32_at(v.data, i, v.endian) as u64,
                        annotations: s,
                    },
                    8,
                ),
            ),
            Err(k) => Err(k),
        }
    }
}

/// `count` method-annotations records encoded back to back starting at `i`.
pub open spec fn method_annotations_seq_at<D: ValueDecoder>(
    d: &D,
    v: DexView,
    i: int,
    count: nat,
) -> Result<(Seq<SpecMethodAnnotations>, nat), ErrKind>
    decreases count,
{
    if count == 0 {
        Ok((Seq::empty(), 0))
    } else {
        match method_annotations_at(d, v, i) {
            Ok((m, n)) => match method_annotations_seq_at(d, v, i + n, (count - 1) as nat) {
                Ok((rest, nr)) => Ok((seq![m] + rest, (n + nr) as nat)),
                Err(k) => Err(k),
            },
            Err(k) => Err(k),
        }
    }
}

/// The parameter-annotations record starting at `i`: a fixed-width method
/// index and a fixed-width offset resolved to an annotation set reference
/// list.
pub open spec fn parameter_annotations_at<D: ValueDecoder>(d: &D, v: DexView, i: int) -> Result<
    (SpecParameterAnnotations, nat),
    ErrKind,
> {
    if i < 0 || i + 8 > v.data.len() {
        Err(ErrKind::Malformed)
    } else {
        match resolve_set_ref_list_at(d, v, u32_at(v.data, i + 4, v.endian)) {
            Ok(l) => Ok(
                (
                    SpecParameterAnnotations {
                        method_idx: u32_at(v.data, i, v.endian) as u64,
                        annotations: l,
                    },
                    8,
                ),
            ),
            Err(k) => Err(k),
        }
    }
}

/// `count` parameter-annotations records encoded back to back starting at
/// `i`.
pub open spec fn parameter_annotations_seq_at<D: ValueDecoder>(
    d: &D,
    v: DexView,
    i: int,
    count: nat,
) -> Result<(Seq<SpecParameterAnnotations>, nat), ErrKind>
    decreases count,
{
    if count == 0 {
        Ok((Seq::empty(), 0))
    } else {
        match parameter_annotations_at(d, v, i) {
            Ok((p, n)) => match parameter_annotations_seq_at(d, v, i + n, (count - 1) as nat) {
                Ok((rest, nr)) => Ok((seq![p] + rest, (n + nr) as nat)),
                Err(k) => Err(k),
            },
            Err(k) => Err(k),
        }
    }
}

/// The annotations directory starting at `i`: a four-field fixed-width
/// header, the class annotation set (an offset of zero denotes the empty
/// set, not an error), then the field, method and parameter records in that
/// fixed order.
pub open spec fn directory_at<D: ValueDecoder>(d: &D, v: DexView, i: int) -> Result<
    (SpecAnnotationsDirectoryItem, nat),
    ErrKind,
> {
    if i < 0 || i + 16 > v.data.len() {
        Err(ErrKind::Malformed)
    } else {
        let class_off = u32_at(v.data, i, v.endian);
        let fields_count = u32_at(v.data, i + 4, v.endian);
        let methods_count = u32_at(v.data, i + 8, v.endian);
        let params_count = u32_at(v.data, i + 12, v.endian);
        let class_annotations: Result<Seq<SpecAnnotationItem>, ErrKind> = if class_off == 0 {
            Ok(Seq::empty())
        } else {
            resolve_set_item_at(d, v, class_off)
        };
        match class_annotations {
            Ok(cls) => match field_annotations_seq_at(d, v, i + 16, fields_count as nat) {
                Ok((fs, n1)) => match method_annotations_seq_at(
                    d,
                    v,
                    i + 16 + n1,
                    methods_count as nat,
                ) {
                    Ok((ms, n2)) => match parameter_annotations_seq_at(
                        d,
                        v,
                        i + 16 + n1 + n2,
                        params_count as nat,
                    ) {
                        Ok((ps, n3)) => Ok(
                            (
                                SpecAnnotationsDirectoryItem {
                                    class_annotations: cls,
                                    field_annotations: fs,
                                    method_annotations: ms,
                                    parameter_annotations: ps,
                                },
                                (16 + n1 + n2 + n3) as nat,
                            ),
                        ),
                        Err(k) => Err(k),
                    },
                    Err(k) => Err(k),
                },
                Err(k) => Err(k),
            },
            Err(k) => Err(k),
        }
    }
}

/// The entries of an annotation set's offset table number exactly `count`,
/// and the entry at position `j` is the resolution of the offset stored at
/// table position `j`.
proof fn lemma_set_entries_shape<D: ValueDecoder>(d: &D, v: DexView, p: int, count: nat)
    requires
        set_entries_at(d, v, p, count) is Ok,
    ensures
        ({
            let items = set_entries_at(d, v, p, count)->Ok_0;
            items.len() == count && forall|j: int|
                0 <= j < count ==> resolve_item_at(d, v, u32_at(v.data, p + 4 * j, v.endian))
                    is Ok && items[j] == resolve_item_at(
                    d,
                    v,
                    #[trigger] u32_at(v.data, p + 4 * j, v.endian),
                )->Ok_0
        }),
    decreases count,
{
    if count != 0 {
        lemma_set_entries_shape(d, v, p + 4, (count - 1) as nat);
        let items = set_entries_at(d, v, p, count)->Ok_0;
        let rest = set_entries_at(d, v, p + 4, (count - 1) as nat)->Ok_0;
        assert forall|j: int| 0 <= j < count implies resolve_item_at(
            d,
            v,
            u32_at(v.data, p + 4 * j, v.endian),
        ) is Ok && items[j] == resolve_item_at(
            d,
            v,
            #[trigger] u32_at(v.data, p + 4 * j, v.endian),
        )->Ok_0 by {
            if j == 0 {
                assert(p + 4 * 0 == p);
            } else {
                assert((p + 4) + 4 * (j - 1) == p + 4 * j);
                assert(items[j] == rest[j - 1]);
            }
        }
    }
}

/// An annotation set's emitted count equals the count field read from the
/// stream.
pub proof fn lemma_set_item_count<D: ValueDecoder>(d: &D, v: DexView, i: int)
    requires
        set_item_at(d, v, i) is Ok,
    ensures
        set_item_at(d, v, i)->Ok_0.0.len() == u32_at(v.data, i, v.endian),
{
    lemma_set_entries_shape(d, v, i + 4, u32_at(v.data, i, v.endian) as nat);
}

/// Two positions of an annotation set's offset table that hold the same
/// offset resolve to structurally equal annotation items: resolution is a
/// function of the byte image alone, and the cache never changes it.
pub proof fn lemma_set_item_equal_offsets<D: ValueDecoder>(
    d: &D,
    v: DexView,
    i: int,
    j1: int,
    j2: int,
)
    requires
        set_item_at(d, v, i) is Ok,
        0 <= j1 < u32_at(v.data, i, v.endian),
        0 <= j2 < u32_at(v.data, i, v.endian),
        u32_at(v.data, i + 4 + 4 * j1, v.endian) == u32_at(v.data, i + 4 + 4 * j2, v.endian),
    ensures
        ({
            let items = set_item_at(d, v, i)->Ok_0.0;
            items[j1] == items[j2]
        }),
{
    lemma_set_entries_shape(d, v, i + 4, u32_at(v.data, i, v.endian) as nat);
    assert((i + 4) + 4 * j1 == i + 4 + 4 * j1);
    assert((i + 4) + 4 * j2 == i + 4 + 4 * j2);
}

/// A visibility byte outside the three legal codes makes the annotation
/// item fail with `InvalidIndex`; it never defaults to any visibility.
pub proof fn lemma_visibility_rejected<D: ValueDecoder>(d: &D, v: DexView, i: int)
    requires
        0 <= i < v.data.len(),
        v.data[i] > 2,
    ensures
        ann_item_at(d, v, i) == Err::<(SpecAnnotationItem, nat), ErrKind>(ErrKind::InvalidIndex),
{
}

/// A directory whose class annotations offset is zero carries the empty
/// class annotation set; the zero offset is not an error.
pub proof fn lemma_directory_empty_class<D: ValueDecoder>(d: &D, v: DexView, i: int)
    requires
        directory_at(d, v, i) is Ok,
        u32_at(v.data, i, v.endian) == 0,
    ensures
        directory_at(d, v, i)->Ok_0.0.class_annotations == Seq::<SpecAnnotationItem>::empty(),
{
}

} // verus!
