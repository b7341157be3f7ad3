//! Delta-encoded item arrays and exception-handler metadata for guarded
//! code regions.

use vstd::prelude::*;

use crate::codec::{read_sleb, read_uleb, sleb64_at, uleb64_at};
use crate::context::{DexContext, DexView};
use crate::error::{ErrKind, Error};
use crate::jtype::{SpecTypeRef, TypeRef};
use crate::value::ValueDecoder;

verus! {

/// Mathematical model of an [`ExceptionType`].
pub enum SpecExceptionType {
    /// A specific exception type, resolved through the type table.
    Ty(SpecTypeRef),
    /// The catch-all kind: matches any exception.
    BaseException,
}

/// The exception kind a catch handler covers: a specific type or the
/// catch-all kind.
#[derive(Debug, Clone, PartialEq)]
pub enum ExceptionType {
    /// A specific exception type, resolved through the type table.
    Ty(TypeRef),
    /// The catch-all kind: matches any exception.
    BaseException,
}

impl View for ExceptionType {
    type V = SpecExceptionType;

    open spec fn view(&self) -> SpecExceptionType {
        match self {
            ExceptionType::Ty(t) => SpecExceptionType::Ty(t@),
            ExceptionType::BaseException => SpecExceptionType::BaseException,
        }
    }
}

/// Mathematical model of a [`CatchHandler`].
pub struct SpecCatchHandler {
    pub exception: SpecExceptionType,
    pub addr: u64,
}

/// One catch handler: the exception kind it covers and the code address
/// control transfers to.
#[derive(Debug, Clone, PartialEq)]
pub struct CatchHandler {
    /// The exception kind this handler covers.
    pub exception: ExceptionType,
    /// The code address of the handler.
    pub addr: u64,
}

impl View for CatchHandler {
    type V = SpecCatchHandler;

    open spec fn view(&self) -> SpecCatchHandler {
        SpecCatchHandler { exception: self.exception@, addr: self.addr }
    }
}

/// The (type id, address) pair at `i`: two unsigned varints.
pub open spec fn type_addr_pair_at(s: Seq<u8>, i: int) -> Result<((u64, u64), nat), ErrKind> {
    match uleb64_at(s, i) {
        Ok((tid, n1)) => match uleb64_at(s, i + n1) {
            Ok((addr, n2)) => Ok(((tid, addr), (n1 + n2) as nat)),
            Err(k) => Err(k),
        },
        Err(k) => Err(k),
    }
}

/// `count` typed catch handlers encoded back to back starting at `i`, each
/// a (type id, address) pair with the type id resolved through the type
/// table (failing `InvalidIndex` when out of range).
pub open spec fn typed_handlers_at(v: DexView, i: int, count: nat) -> Result<
    (Seq<SpecCatchHandler>, nat),
    ErrKind,
>
    decreases count,
{
    if count == 0 {
        Ok((Seq::empty(), 0))
    } else {
        match type_addr_pair_at(v.data, i) {
            Ok((p, n)) => if p.0 >= v.types.len() {
                Err(ErrKind::InvalidIndex)
            } else {
                let h = SpecCatchHandler {
                    exception: SpecExceptionType::Ty(
                        SpecTypeRef { index: p.0, descriptor: v.types[p.0 as int] },
                    ),
                    addr: p.1,
                };
                match typed_handlers_at(v, i + n, (count - 1) as nat) {
                    Ok((rest, nr)) => Ok((seq![h] + rest, (n + nr) as nat)),
                    Err(k) => Err(k),
                }
            },
            Err(k) => Err(k),
        }
    }
}

/// The catch-handler record at `i`: a signed varint `header`; then, for
/// `header > 0`, exactly `header` typed handlers and nothing else; for
/// `header <= 0`, `abs(header)` typed handlers followed by one unsigned
/// varint address carried by a single appended catch-all handler.
pub open spec fn catch_handler_at(v: DexView, i: int) -> Result<
    (Seq<SpecCatchHandler>, nat),
    ErrKind,
> {
    match sleb64_at(v.data, i) {
        Ok((hdr, n0)) => {
            let count: nat = if hdr >= 0 {
                hdr as nat
            } else {
                (-(hdr as int)) as nat
            };
            match typed_handlers_at(v, i + n0, count) {
                Ok((hs, n1)) => if hdr > 0 {
                    Ok((hs, (n0 + n1) as nat))
                } else {
                    match uleb64_at(v.data, i + n0 + n1) {
                        Ok((addr, n2)) => Ok(
                            (
                                hs + seq![
                                    SpecCatchHandler {
                                        exception: SpecExceptionType::BaseException,
                                        addr,
                                    },
                                ],
                                (n0 + n1 + n2) as nat,
                            ),
                        ),
                        Err(k) => Err(k),
                    }
                },
                Err(k) => Err(k),
            }
        },
        Err(k) => Err(k),
    }
}

/// `count` catch-handler records encoded back to back from `p`, each keyed
/// by the byte offset of its first byte relative to `base`, the start of
/// the enclosing list.
pub open spec fn handler_records_at(v: DexView, base: int, p: int, count: nat) -> Result<
    (Seq<(nat, Seq<SpecCatchHandler>)>, nat),
    ErrKind,
>
    decreases count,
{
    if count == 0 {
        Ok((Seq::empty(), 0))
    } else {
        match catch_handler_at(v, p) {
            Ok((h, n)) => match handler_records_at(v, base, p + n, (count - 1) as nat) {
                Ok((rest, nr)) => Ok((seq![((p - base) as nat, h)] + rest, (n + nr) as nat)),
                Err(k) => Err(k),
            },
            Err(k) => Err(k),
        }
    }
}

/// The catch-handler list at `i`: an unsigned varint record count, then
/// that many records, each keyed by its offset relative to the start of the
/// list.
pub open spec fn catch_handlers_at(v: DexView, i: int) -> Result<
    (Seq<(nat, Seq<SpecCatchHandler>)>, nat),
    ErrKind,
> {
    match uleb64_at(v.data, i) {
        Ok((count, n0)) => match handler_records_at(v, i, i + n0, count as nat) {
            Ok((records, n1)) => Ok((records, (n0 + n1) as nat)),
            Err(k) => Err(k),
        },
        Err(k) => Err(k),
    }
}

/// The first record of `m` keyed by `off`, or `None` when no record carries
/// that relative offset.
pub open spec fn find_handler_spec(m: Seq<(nat, Seq<SpecCatchHandler>)>, off: nat) -> Option<
    Seq<SpecCatchHandler>,
>
    decreases m.len(),
{
    if m.len() == 0 {
        None
    } else if m[0].0 == off {
        Some(m[0].1)
    } else {
        find_handler_spec(m.drop_first(), off)
    }
}

/// Typed handlers decoded with count `count` number exactly `count`, and
/// every one covers a specific exception type, never the catch-all kind.
proof fn lemma_typed_handlers_shape(v: DexView, i: int, count: nat)
    requires
        typed_handlers_at(v, i, count) is Ok,
    ensures
        ({
            let hs = typed_handlers_at(v, i, count)->Ok_0.0;
            hs.len() == count && forall|j: int|
                0 <= j < hs.len() ==> #[trigger] hs[j].exception is Ty
        }),
    decreases count,
{
    if count != 0 {
        let (p, n) = type_addr_pair_at(v.data, i)->Ok_0;
        lemma_typed_handlers_shape(v, i + n, (count - 1) as nat);
    }
}

/// A catch-handler record whose header is positive holds exactly `header`
/// typed handlers and no catch-all handler.
pub proof fn lemma_catch_handler_positive_header(v: DexView, i: int)
    requires
        catch_handler_at(v, i) is Ok,
        sleb64_at(v.data, i)->Ok_0.0 > 0,
    ensures
        ({
            let hs = catch_handler_at(v, i)->Ok_0.0;
            let hdr = sleb64_at(v.data, i)->Ok_0.0;
            hs.len() == hdr && forall|j: int|
                0 <= j < hs.len() ==> #[trigger] hs[j].exception is Ty
        }),
{
    let (hdr, n0) = sleb64_at(v.data, i)->Ok_0;
    lemma_typed_handlers_shape(v, i + n0, hdr as nat);
}

/// A catch-handler record whose header is non-positive holds `abs(header)`
/// typed handlers followed by exactly one catch-all handler, and no other
/// handler covers the catch-all kind.
pub proof fn lemma_catch_handler_nonpositive_header(v: DexView, i: int)
    requires
        catch_handler_at(v, i) is Ok,
        sleb64_at(v.data, i)->Ok_0.0 <= 0,
    ensures
        ({
            let hs = catch_handler_at(v, i)->Ok_0.0;
            let hdr = sleb64_at(v.data, i)->Ok_0.0;
            &&& hs.len() == 1 + (-(hdr as int))
            &&& hs[hs.len() - 1].exception is BaseException
            &&& forall|j: int| 0 <= j < hs.len() - 1 ==> #[trigger] hs[j].exception is Ty
        }),
{
    let (hdr, n0) = sleb64_at(v.data, i)->Ok_0;
    lemma_typed_handlers_shape(v, i + n0, (-(hdr as int)) as nat);
}

/// A delta-id array of length zero decodes to the empty sequence and
/// consumes no per-item bytes, whatever the position and delta base.
pub proof fn lemma_item_array_empty<T: EncodedItem>(s: Seq<u8>, i: int, prev: u64)
    ensures
        item_array_at::<T>(s, i, prev, 0) == Ok::<(Seq<T::V>, nat), ErrKind>((Seq::empty(), 0)),
{
}

/// One (type id, address) pair of a catch-handler record.
#[derive(Debug, Clone, Copy, PartialEq, Eq)]
pub struct EncodedTypeAddrPair {
    /// Unresolved index into the type table.
    pub type_id: u64,
    /// The code address of the handler.
    pub addr: u64,
}

impl EncodedTypeAddrPair {
    /// Decodes the (type id, address) pair at `pos`, returning it and the
    /// count of bytes consumed.
    pub fn try_from_ctx(buf: &Vec<u8>, pos: usize) -> (r: Result<(Self, usize), Error>)
        ensures
            r matches Ok(p) ==> type_addr_pair_at(buf@, pos as int) == Ok::<
                ((u64, u64), nat),
                ErrKind,
            >(((p.0.type_id, p.0.addr), p.1 as nat)) && pos + p.1 <= buf@.len(),
            r matches Err(e) ==> type_addr_pair_at(buf@, pos as int) == Err::<
                ((u64, u64), nat),
                ErrKind,
            >(e.kind()),
    {
        proof {
            crate::codec::lemma_buf_len_fits(buf);
        }
        let (type_id, n1) = match read_uleb(buf, pos) {
            Ok(p) => p,
            Err(e) => return Err(e),
        };
        let (addr, n2) = match read_uleb(buf, pos + n1) {
            Ok(p) => p,
            Err(e) => return Err(e),
        };
        Ok((EncodedTypeAddrPair { type_id, addr }, n1 + n2))
    }
}

/// One guarded region's catch handlers, in file order; when the record's
/// header is non-positive the last handler is the region's single catch-all
/// handler.
#[derive(Debug, Clone, PartialEq)]
pub struct EncodedCatchHandler {
    /// The handlers, in file order.
    pub handlers: Vec<CatchHandler>,
}

impl View for EncodedCatchHandler {
    type V = Seq<SpecCatchHandler>;

    open spec fn view(&self) -> Seq<SpecCatchHandler> {
        self.handlers@.map_values(|h: CatchHandler| h@)
    }
}

impl EncodedCatchHandler {
    /// The handlers, in file order, as an owned vector.
    pub fn handlers(&self) -> (r: Vec<CatchHandler>)
        ensures
            r@.map_values(|h: CatchHandler| h@) == self@,
    {
        let mut out: Vec<CatchHandler> = Vec::new();
        let mut j: usize = 0;
        while j < self.handlers.len()
            invariant
                j <= self.handlers.len(),
                out@.len() == j,
                forall|k: int| 0 <= k < j ==> #[trigger] out@[k]@ == self.handlers@[k]@,
            decreases self.handlers.len() - j,
        {
            let h = &self.handlers[j];
            let exception = match &h.exception {
                ExceptionType::Ty(t) => ExceptionType::Ty(
                    TypeRef { index: t.index, descriptor: t.descriptor.clone() },
                ),
                ExceptionType::BaseException => ExceptionType::BaseException,
            };
            out.push(CatchHandler { exception, addr: h.addr });
            j += 1;
        }
        proof {
            assert(out@.map_values(|h: CatchHandler| h@) =~= self@);
        }
        out
    }

    /// Decodes the catch-handler record at `pos`, returning it and the
    /// count of bytes consumed.
    #[verifier::loop_isolation(false)]
    pub fn try_from_ctx<D: ValueDecoder>(ctx: &DexContext<D>, pos: usize) -> (r: Result<
        (Self, usize),
        Error,
    >)
        ensures
            r matches Ok(p) ==> catch_handler_at(ctx@, pos as int) == Ok::<
                (Seq<SpecCatchHandler>, nat),
                ErrKind,
            >((p.0@, p.1 as nat)) && pos + p.1 <= ctx@.data.len(),
            r matches Err(e) ==> catch_handler_at(ctx@, pos as int) == Err::<
                (Seq<SpecCatchHandler>, nat),
                ErrKind,
            >(e.kind()),
    {
        proof {
            crate::codec::lemma_buf_len_fits(&ctx.buf);
        }
        let (header, n0) = match read_sleb(&ctx.buf, pos) {
            Ok(p) => p,
            Err(e) => return Err(e),
        };
        let count: u64 = if header >= 0 {
            header as u64
        } else {
            (-(header + 1)) as u64 + 1
        };
        let start: usize = pos + n0;
        let mut handlers: Vec<CatchHandler> = Vec::new();
        let mut cur: usize = start;
        let mut j: u64 = 0;
        while j < count
            invariant
                j <= count,
                start <= cur <= ctx.buf@.len(),
                handlers@.len() == j,
                ({
                    let hs = handlers@.map_values(|h: CatchHandler| h@);
                    match typed_handlers_at(ctx@, cur as int, (count - j) as nat) {
                        Ok((rest, nr)) => typed_handlers_at(ctx@, start as int, count as nat)
                            == Ok::<(Seq<SpecCatchHandler>, nat), ErrKind>(
                            (hs + rest, ((cur - start) + nr) as nat),
                        ),
                        Err(k) => typed_handlers_at(ctx@, start as int, count as nat) == Err::<
                            (Seq<SpecCatchHandler>, nat),
                            ErrKind,
                        >(k),
                    }
                }),
            decreases count - j,
        {
            let (pair, n) = match EncodedTypeAddrPair::try_from_ctx(&ctx.buf, cur) {
                Ok(p) => p,
                Err(e) => return Err(e),
            };
            let t = match ctx.get_type(pair.type_id) {
                Ok(t) => t,
                Err(e) => return Err(e),
            };
            let h = CatchHandler { exception: ExceptionType::Ty(t), addr: pair.addr };
            proof {
                let f = |h: CatchHandler| h@;
                let before = handlers@.map_values(f);
                assert(handlers@.push(h).map_values(f) =~= before.push(h@));
                match typed_handlers_at(ctx@, cur + n, (count - j - 1) as nat) {
                    Ok((rest, nr)) => {
                        assert(before + (seq![h@] + rest) =~= before.push(h@) + rest);
                    },
                    Err(k) => {},
                }
            }
            handlers.push(h);
            cur = cur + n;
            j = j + 1;
        }
        proof {
            let f = |h: CatchHandler| h@;
            assert(handlers@.map_values(f) + Seq::<SpecCatchHandler>::empty() =~= handlers@
                .map_values(f));
        }
        if header <= 0 {
            let (addr, n2) = match read_uleb(&ctx.buf, cur) {
                Ok(p) => p,
                Err(e) => return Err(e),
            };
            let catch_all = CatchHandler { exception: ExceptionType::BaseException, addr };
            proof {
                let f = |h: CatchHandler| h@;
                let before = handlers@.map_values(f);
                assert(handlers@.push(catch_all).map_values(f) =~= before.push(catch_all@));
                assert(before + seq![catch_all@] =~= before.push(catch_all@));
            }
            handlers.push(catch_all);
            cur = cur + n2;
        }
        Ok((EncodedCatchHandler { handlers }, cur - pos))
    }
}

/// All catch-handler records of one code item, each keyed by its byte
/// offset relative to the start of the list, because other structures
/// reference a record by that relative offset rather than by position.
#[derive(Debug, Clone, PartialEq)]
pub struct EncodedCatchHandlers {
    /// The records, in file order, each with its relative byte offset.
    pub inner: Vec<(usize, EncodedCatchHandler)>,
}

impl View for EncodedCatchHandlers {
    type V = Seq<(nat, Seq<SpecCatchHandler>)>;

    open spec fn view(&self) -> Seq<(nat, Seq<SpecCatchHandler>)> {
        self.inner@.map_values(|p: (usize, EncodedCatchHandler)| (p.0 as nat, p.1@))
    }
}

impl EncodedCatchHandlers {
    /// The records, in file order, each with its relative byte offset.
    pub fn iter(&self) -> (r: &Vec<(usize, EncodedCatchHandler)>)
        ensures
            r@.map_values(|p: (usize, EncodedCatchHandler)| (p.0 as nat, p.1@)) == self@,
    {
        &self.inner
    }

    /// Finds the record whose relative offset is `handler_offset`, or
    /// `None` when no record starts there.
    pub fn find(&self, handler_offset: u16) -> (r: Option<&EncodedCatchHandler>)
        ensures
            r matches Some(h) ==> find_handler_spec(self@, handler_offset as nat) == Some(h@),
            r is None ==> find_handler_spec(self@, handler_offset as nat) is None,
    {
        let ghost m = self@;
        proof {
            assert(m.skip(0) =~= m);
        }
        let mut j: usize = 0;
        while j < self.inner.len()
            invariant
                j <= self.inner.len(),
                m == self@,
                m.len() == self.inner.len(),
                forall|k: int| 0 <= k < j ==> #[trigger] m[k].0 != handler_offset as nat,
                find_handler_spec(m, handler_offset as nat) == find_handler_spec(
                    m.skip(j as int),
                    handler_offset as nat,
                ),
            decreases self.inner.len() - j,
        {
            proof {
                assert(m.skip(j as int)[0] == m[j as int]);
                assert(m.skip(j as int).drop_first() =~= m.skip(j + 1));
            }
            if self.inner[j].0 == handler_offset as usize {
                return Some(&self.inner[j].1);
            }
            j += 1;
        }
        proof {
            assert(m.skip(self.inner.len() as int) =~= Seq::<
                (nat, Seq<SpecCatchHandler>),
            >::empty());
        }
        None
    }

    /// Decodes the catch-handler list at `pos`: an unsigned varint record
    /// count, then that many records, each keyed by the offset of its first
    /// byte relative to `pos`.
    #[verifier::loop_isolation(false)]
    pub fn try_from_ctx<D: ValueDecoder>(ctx: &DexContext<D>, pos: usize) -> (r: Result<
        (Self, usize),
        Error,
    >)
        ensures
            r matches Ok(p) ==> catch_handlers_at(ctx@, pos as int) == Ok::<
                (Seq<(nat, Seq<SpecCatchHandler>)>, nat),
                ErrKind,
            >((p.0@, p.1 as nat)) && pos + p.1 <= ctx@.data.len(),
            r matches Err(e) ==> catch_handlers_at(ctx@, pos as int) == Err::<
                (Seq<(nat, Seq<SpecCatchHandler>)>, nat),
                ErrKind,
            >(e.kind()),
    {
        proof {
            crate::codec::lemma_buf_len_fits(&ctx.buf);
        }
        let (count, n0) = match read_uleb(&ctx.buf, pos) {
            Ok(p) => p,
            Err(e) => return Err(e),
        };
        let start: usize = pos + n0;
        let mut inner: Vec<(usize, EncodedCatchHandler)> = Vec::new();
        let mut cur: usize = start;
        let mut j: u64 = 0;
        while j < count
            invariant
                j <= count,
                pos <= start <= cur <= ctx.buf@.len(),
                inner@.len() == j,
                ({
                    let rs = inner@.map_values(
                        |p: (usize, EncodedCatchHandler)| (p.0 as nat, p.1@),
                    );
                    match handler_records_at(ctx@, pos as int, cur as int, (count - j) as nat) {
                        Ok((rest, nr)) => handler_records_at(
                            ctx@,
                            pos as int,
                            start as int,
                            count as nat,
                        ) == Ok::<(Seq<(nat, Seq<SpecCatchHandler>)>, nat), ErrKind>(
                            (rs + rest, ((cur - start) + nr) as nat),
                        ),
                        Err(k) => handler_records_at(
                            ctx@,
                            pos as int,
                            start as int,
                            count as nat,
                        ) == Err::<(Seq<(nat, Seq<SpecCatchHandler>)>, nat), ErrKind>(k),
                    }
                }),
            decreases count - j,
        {
            let rel: usize = cur - pos;
            match EncodedCatchHandler::try_from_ctx(ctx, cur) {
                Ok((h, n)) => {
                    proof {
                        let f = |p: (usize, EncodedCatchHandler)| (p.0 as nat, p.1@);
                        let before = inner@.map_values(f);
                        assert(inner@.push((rel, h)).map_values(f) =~= before.push(
                            ((rel as nat, h@)),
                        ));
                        match handler_records_at(
                            ctx@,
                            pos as int,
                            cur + n,
                            (count - j - 1) as nat,
                        ) {
                            Ok((rest, nr)) => {
                                assert(before + (seq![(rel as nat, h@)] + rest) =~= before.push(
                                    ((rel as nat, h@)),
                                ) + rest);
                            },
                            Err(k) => {},
                        }
                    }
                    inner.push((rel, h));
                    cur = cur + n;
                    j = j + 1;
                },
                Err(e) => {
                    return Err(e);
                },
            }
        }
        proof {
            let f = |p: (usize, EncodedCatchHandler)| (p.0 as nat, p.1@);
            assert(inner@.map_values(f) + Seq::<(nat, Seq<SpecCatchHandler>)>::empty() =~= inner@
                .map_values(f));
        }
        Ok((EncodedCatchHandlers { inner }, cur - pos))
    }
}

/// One item of a delta-id array. The item's identifier is encoded as the
/// difference from the previous item's identifier, so decoding one item
/// needs the previous identifier as context and reports its own for the
/// next.
pub trait EncodedItem: View + Sized {
    /// What `try_from_bytes` returns for the bytes of `s` from `i` on, with
    /// `prev` the previous item's identifier: the decoded item's model, its
    /// own identifier, and the count of bytes consumed.
    spec fn item_at(s: Seq<u8>, i: int, prev: u64) -> Result<(Self::V, u64, nat), ErrKind>;

    /// The identifier of this decoded item.
    spec fn spec_id(&self) -> u64;

    /// Returns the identifier of this decoded item.
    fn id(&self) -> (r: u64)
        ensures
            r == self.spec_id(),
    ;

    /// Decodes one item at `pos`, given the previous item's identifier.
    fn try_from_bytes(buf: &Vec<u8>, pos: usize, prev: u64) -> (r: Result<(Self, usize), Error>)
        ensures
            r matches Ok(p) ==> Self::item_at(buf@, pos as int, prev) == Ok::<
                (Self::V, u64, nat),
                ErrKind,
            >((p.0@, p.0.spec_id(), p.1 as nat)) && pos + p.1 <= buf@.len(),
            r matches Err(e) ==> Self::item_at(buf@, pos as int, prev) == Err::<
                (Self::V, u64, nat),
                ErrKind,
            >(e.kind()),
    ;
}

/// `len` delta-encoded items decoded back to back from `i`, each receiving
/// the previous item's identifier (initially `prev`) as context. The
/// propagation is strictly forward: each item's identifier feeds the next.
pub open spec fn item_array_at<T: EncodedItem>(s: Seq<u8>, i: int, prev: u64, len: nat) -> Result<
    (Seq<T::V>, nat),
    ErrKind,
>
    decreases len,
{
    if len == 0 {
        Ok((Seq::empty(), 0))
    } else {
        match T::item_at(s, i, prev) {
            Ok((m, id, n)) => match item_array_at::<T>(s, i + n, id, (len - 1) as nat) {
                Ok((rest, nr)) => Ok((seq![m] + rest, (n + nr) as nat)),
                Err(k) => Err(k),
            },
            Err(k) => Err(k),
        }
    }
}

/// The decoding context of an [`EncodedItemArray`]: the dex context and the
/// externally supplied item count (the array is never self-terminating).
#[derive(Clone, Copy)]
pub struct EncodedItemArrayCtx<'a, D: ValueDecoder> {
    /// The decoding context whose buffer the array is read from.
    pub dex: &'a DexContext<D>,
    /// The number of items to decode.
    pub len: usize,
}

impl<'a, D: ValueDecoder> EncodedItemArrayCtx<'a, D> {
    /// Pairs a context with the number of items to decode.
    pub fn new(dex: &'a DexContext<D>, len: usize) -> (r: Self)
        ensures
            r.dex == dex,
            r.len == len,
    {
        EncodedItemArrayCtx { dex, len }
    }
}

/// An array of delta-encoded items, in decode order.
#[derive(Debug, Clone, PartialEq)]
pub struct EncodedItemArray<T> {
    /// The decoded items, in file order.
    pub inner: Vec<T>,
}

impl<T: View> View for EncodedItemArray<T> {
    type V = Seq<T::V>;

    open spec fn view(&self) -> Seq<T::V> {
        self.inner@.map_values(|t: T| t@)
    }
}

impl<T: EncodedItem> EncodedItemArray<T> {
    /// The decoded items, in file order.
    pub fn inner(&self) -> (r: &Vec<T>)
        ensures
            r@.map_values(|t: T| t@) == self@,
    {
        &self.inner
    }

    /// Consumes the array, returning the items in decode order.
    pub fn iter(self) -> (r: Vec<T>)
        ensures
            r@.map_values(|t: T| t@) == self@,
    {
        self.inner
    }

    /// Decodes `ctx.len` items at `pos`, feeding each item's identifier to
    /// the next as its delta base, starting from zero.
    #[verifier::loop_isolation(false)]
    pub fn try_from_ctx<'a, D: ValueDecoder>(ctx: EncodedItemArrayCtx<'a, D>, pos: usize) -> (r:
        Result<(Self, usize), Error>)
        ensures
            r matches Ok(p) ==> item_array_at::<T>(ctx.dex.buf@, pos as int, 0, ctx.len as nat)
                == Ok::<(Seq<T::V>, nat), ErrKind>((p.0@, p.1 as nat)) && (p.1 == 0 || pos + p.1
                <= ctx.dex.buf@.len()),
            r matches Err(e) ==> item_array_at::<T>(ctx.dex.buf@, pos as int, 0, ctx.len as nat)
                == Err::<(Seq<T::V>, nat), ErrKind>(e.kind()),
    {
        proof {
            crate::codec::lemma_buf_len_fits(&ctx.dex.buf);
        }
        let len = ctx.len;
        let mut inner: Vec<T> = Vec::new();
        let mut prev: u64 = 0;
        let mut cur: usize = pos;
        let mut j: usize = 0;
        while j < len
            invariant
                j <= len,
                cur == pos || (pos <= cur <= ctx.dex.buf@.len()),
                inner@.len() == j,
                ({
                    let items = inner@.map_values(|t: T| t@);
                    match item_array_at::<T>(ctx.dex.buf@, cur as int, prev, (len - j) as nat) {
                        Ok((rest, nr)) => item_array_at::<T>(
                            ctx.dex.buf@,
                            pos as int,
                            0,
                            len as nat,
                        ) == Ok::<(Seq<T::V>, nat), ErrKind>(
                            (items + rest, ((cur - pos) + nr) as nat),
                        ),
                        Err(k) => item_array_at::<T>(ctx.dex.buf@, pos as int, 0, len as nat)
                            == Err::<(Seq<T::V>, nat), ErrKind>(k),
                    }
                }),
            decreases len - j,
        {
            match T::try_from_bytes(&ctx.dex.buf, cur, prev) {
                Ok((item, n)) => {
                    proof {
                        let f = |t: T| t@;
                        let before = inner@.map_values(f);
                        assert(inner@.push(item).map_values(f) =~= before.push(item@));
                        match item_array_at::<T>(
                            ctx.dex.buf@,
                            cur + n,
                            item.spec_id(),
                            (len - j - 1) as nat,
                        ) {
                            Ok((rest, nr)) => {
                                assert(before + (seq![item@] + rest) =~= before.push(item@) + rest);
                            },
                            Err(k) => {},
                        }
                    }
                    prev = item.id();
                    inner.push(item);
                    cur = cur + n;
                    j = j + 1;
                },
                Err(e) => {
                    return Err(e);
                },
            }
        }
        proof {
            let f = |t: T| t@;
            assert(inner@.map_values(f) + Seq::<T::V>::empty() =~= inner@.map_values(f));
        }
        Ok((EncodedItemArray { inner }, cur - pos))
    }
}

/// The simplest delta-encoded item: one unsigned varint holding the
/// difference from the previous item's identifier, and nothing else. The
/// decoded item carries its absolute identifier.
#[derive(Debug, Clone, Copy, PartialEq, Eq)]
pub struct DeltaItem {
    /// The absolute identifier: the previous item's identifier plus this
    /// item's encoded delta.
    pub id: u64,
}

impl View for DeltaItem {
    type V = u64;

    open spec fn view(&self) -> u64 {
        self.id
    }
}

impl EncodedItem for DeltaItem {
    open spec fn item_at(s: Seq<u8>, i: int, prev: u64) -> Result<(u64, u64, nat), ErrKind> {
        match uleb64_at(s, i) {
            Ok((d, n)) => if prev + d > u64::MAX {
                Err(ErrKind::Malformed)
            } else {
                Ok((((prev + d) as u64), (prev + d) as u64, n))
            },
            Err(k) => Err(k),
        }
    }

    open spec fn spec_id(&self) -> u64 {
        self.id
    }

    fn id(&self) -> (r: u64) {
        self.id
    }

    fn try_from_bytes(buf: &Vec<u8>, pos: usize, prev: u64) -> (r: Result<(Self, usize), Error>) {
        let (d, n) = match read_uleb(buf, pos) {
            Ok(p) => p,
            Err(e) => return Err(e),
        };
        match prev.checked_add(d) {
            Some(id) => Ok((DeltaItem { id }, n)),
            None => Err(Error::MalFormed("delta-encoded identifier does not fit".to_owned())),
        }
    }
}

} // verus!
