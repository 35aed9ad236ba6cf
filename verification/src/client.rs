//! The client side: the requests it sends, what it makes of the answers,
//! and its cache of blocks read from the server.
//!
//! A block read from the server is kept in the cache; a later read that a
//! cached block covers is served from it. A client that writes drops its
//! own blocks that meet the written range. When the server announces that
//! another client wrote to a descriptor, this client has stopped watching
//! that descriptor and will hear of no later write to it, so it drops every
//! block of that descriptor; it does the same when it closes one. The
//! blocks hold at most `MAX_CACHE_SIZE` bytes in all, the oldest leaving
//! first.
//!
//! Sending a request and receiving the answer is done by the caller,
//! which hands the answer in (`None` when the exchange failed).
use vstd::prelude::*;
use crate::bytes::append_range;
use crate::endereco::Endereco;
use crate::protocol::{
    Request, RequestView, Response, ResponseType, ResponseView, StandardRequestFactory,
    notice_of, response_code,
};

verus! {

/// Most bytes the cached blocks hold together (1 MiB).
pub const MAX_CACHE_SIZE: usize = 1024 * 1024;

/// A cached block: bytes `start .. end` of the file behind
/// `descritor_arquivo`.
pub struct CacheItem {
    descritor_arquivo: i32,
    start: u64,
    end: u64,
    data: Vec<u8>,
}

/// A cached block as a mathematical value.
pub struct CacheEntry {
    pub descritor_arquivo: i32,
    pub start: u64,
    pub end: u64,
    pub data: Seq<u8>,
}

impl View for CacheItem {
    type V = CacheEntry;

    closed spec fn view(&self) -> CacheEntry {
        CacheEntry {
            descritor_arquivo: self.descritor_arquivo,
            start: self.start,
            end: self.end,
            data: self.data@,
        }
    }
}

/// A block holds exactly the bytes of its range.
pub open spec fn entry_wf(e: CacheEntry) -> bool {
    e.end == e.start + e.data.len()
}

/// The bytes the blocks of `s` hold together.
pub open spec fn total(s: Seq<CacheEntry>) -> nat
    decreases s.len(),
{
    if s.len() == 0 {
        0
    } else {
        total(s.drop_last()) + s.last().data.len()
    }
}

/// Every block holds its range, and the blocks hold at most
/// `MAX_CACHE_SIZE` bytes together.
pub open spec fn cache_wf(s: Seq<CacheEntry>) -> bool {
    &&& total(s) <= MAX_CACHE_SIZE
    &&& forall|i: int| 0 <= i < s.len() ==> #[trigger] entry_wf(s[i])
}

/// Block `e` holds the `tamanho` bytes at `posicao` of file `fd`.
pub open spec fn covers(e: CacheEntry, fd: i32, posicao: u64, tamanho: usize) -> bool {
    &&& e.descritor_arquivo == fd
    &&& e.start <= posicao
    &&& posicao + tamanho <= e.end
}

/// The index of the first block at or after `i` that covers the range,
/// or the length of `s` when none does.
pub open spec fn first_cover_from(
    s: Seq<CacheEntry>,
    fd: i32,
    posicao: u64,
    tamanho: usize,
    i: int,
) -> int
    decreases s.len() - i,
{
    if i >= s.len() {
        s.len() as int
    } else if covers(s[i], fd, posicao, tamanho) {
        i
    } else {
        first_cover_from(s, fd, posicao, tamanho, i + 1)
    }
}

/// The index of the first block that covers the range, or the length of
/// `s` when none does.
pub open spec fn first_cover(s: Seq<CacheEntry>, fd: i32, posicao: u64, tamanho: usize) -> int {
    first_cover_from(s, fd, posicao, tamanho, 0)
}

/// The `tamanho` bytes at `posicao` as block `e` holds them.
pub open spec fn cached_bytes(e: CacheEntry, posicao: u64, tamanho: usize) -> Seq<u8> {
    e.data.subrange(posicao - e.start, posicao - e.start + tamanho)
}

/// Block `e` belongs to file `fd` and meets the bytes `posicao ..= fim`.
pub open spec fn overlaps(e: CacheEntry, fd: i32, posicao: u64, fim: int) -> bool {
    &&& e.descritor_arquivo == fd
    &&& e.start <= fim
    &&& e.end >= posicao
}

/// Whether a block stays: it does unless it belongs to `fd` and either
/// `todos` holds or it meets `posicao ..= fim`.
pub open spec fn stays(fd: i32, posicao: u64, fim: int, todos: bool) -> spec_fn(CacheEntry) -> bool {
    |e: CacheEntry| !(e.descritor_arquivo == fd && (todos || overlaps(e, fd, posicao, fim)))
}

/// The cache without the blocks of `fd` that meet `posicao ..= fim`, the
/// others in their order.
pub open spec fn invalidated(s: Seq<CacheEntry>, fd: i32, posicao: u64, fim: int) -> Seq<
    CacheEntry,
> {
    s.filter(stays(fd, posicao, fim, false))
}

/// The cache without any block of `fd`, the others in their order.
pub open spec fn without_fd(s: Seq<CacheEntry>, fd: i32) -> Seq<CacheEntry> {
    s.filter(stays(fd, 0, 0, true))
}

/// Where the blocks that stay begin when the oldest of `t` leave until the
/// rest hold at most `MAX_CACHE_SIZE` bytes.
pub open spec fn evict_start(t: Seq<CacheEntry>) -> int
    decreases t.len(),
{
    if t.len() == 0 || total(t) <= MAX_CACHE_SIZE {
        0
    } else {
        1 + evict_start(t.drop_first())
    }
}

/// The newest blocks of `t` that hold at most `MAX_CACHE_SIZE` bytes
/// together: the oldest leave first.
pub open spec fn kept(t: Seq<CacheEntry>) -> Seq<CacheEntry> {
    t.subrange(evict_start(t), t.len() as int)
}

/// The cache after `e` joins it as the newest block.
pub open spec fn stored(s: Seq<CacheEntry>, e: CacheEntry) -> Seq<CacheEntry> {
    kept(s.push(e))
}

/// The cache after an invalidation notice with payload `d`: every block
/// of its descriptor leaves.
pub open spec fn after_notice(s: Seq<CacheEntry>, d: Seq<u8>) -> Seq<CacheEntry> {
    without_fd(s, notice_of(d).0)
}

/// The status a client reports for an answer: 0 for a success, -1 for
/// anything else or when no answer came.
pub open spec fn answer_code(resposta: Option<ResponseView>) -> i32 {
    match resposta {
        None => -1i32,
        Some(r) => response_code(r.response_type),
    }
}

/// The view of an optional response.
pub open spec fn opt_view(r: Option<Response>) -> Option<ResponseView> {
    match r {
        Some(x) => Some(x@),
        None => None,
    }
}

/// A client of the file server with its cache.
pub struct Client {
    cache: Vec<CacheItem>,
    bytes: usize,
    server_address: Endereco,
    client_address: Endereco,
    request_factory: StandardRequestFactory,
}

/// Removing a block takes its bytes off the total.
pub proof fn lemma_total_remove(s: Seq<CacheEntry>, i: int)
    requires
        0 <= i < s.len(),
    ensures
        total(s.remove(i)) + s[i].data.len() == total(s),
    decreases s.len(),
{
    if i == s.len() - 1 {
        assert(s.remove(i) =~= s.drop_last());
    } else {
        lemma_total_remove(s.drop_last(), i);
        assert(s.remove(i).drop_last() =~= s.drop_last().remove(i));
        assert(s.remove(i).last() == s.last());
    }
}

/// The oldest block leaves: its bytes come off the total.
proof fn lemma_total_drop_first(s: Seq<CacheEntry>)
    requires
        s.len() > 0,
    ensures
        total(s.drop_first()) + s[0].data.len() == total(s),
{
    lemma_total_remove(s, 0);
    assert(s.remove(0) =~= s.drop_first());
}

/// The blocks that stay begin within `t`, and the newest stays when it
/// alone fits.
pub proof fn lemma_evict_start(t: Seq<CacheEntry>)
    ensures
        0 <= evict_start(t) <= t.len(),
        t.len() > 0 && t.last().data.len() <= MAX_CACHE_SIZE ==> evict_start(t) < t.len(),
        total(kept(t)) <= MAX_CACHE_SIZE,
    decreases t.len(),
{
    if t.len() == 0 || total(t) <= MAX_CACHE_SIZE {
        assert(kept(t) =~= t);
    } else {
        let u = t.drop_first();
        lemma_evict_start(u);
        assert(kept(t) =~= kept(u));
        if t.len() == 1 {
            assert(t.drop_last() =~= Seq::<CacheEntry>::empty());
            assert(total(t.drop_last()) == 0);
            assert(total(t) == t.last().data.len());
        } else {
            assert(u.last() == t.last());
        }
    }
}

/// A block larger than the cache leaves with all the others.
proof fn lemma_evict_all(t: Seq<CacheEntry>)
    requires
        t.len() > 0,
        t.last().data.len() > MAX_CACHE_SIZE,
    ensures
        kept(t) =~= Seq::<CacheEntry>::empty(),
    decreases t.len(),
{
    assert(total(t) >= t.last().data.len());
    assert(evict_start(t) == 1 + evict_start(t.drop_first()));
    if t.len() == 1 {
        assert(evict_start(t.drop_first()) == 0);
    }
    if t.len() > 1 {
        let u = t.drop_first();
        assert(u.last() == t.last());
        lemma_evict_all(u);
        lemma_evict_start(u);
        lemma_evict_start(t);
        assert(kept(t) =~= kept(u));
    }
}

/// When no block at or after `i` covers the range, none of them does.
proof fn lemma_no_cover_from(s: Seq<CacheEntry>, fd: i32, posicao: u64, tamanho: usize, i: int)
    requires
        0 <= i,
        first_cover_from(s, fd, posicao, tamanho, i) >= s.len(),
    ensures
        forall|j: int| i <= j < s.len() ==> !covers(#[trigger] s[j], fd, posicao, tamanho),
    decreases s.len() - i,
{
    if i < s.len() {
        lemma_no_cover_from(s, fd, posicao, tamanho, i + 1);
    }
}

/// When no block covers the range, the search finds none.
proof fn lemma_none_covers(s: Seq<CacheEntry>, fd: i32, posicao: u64, tamanho: usize, i: int)
    requires
        0 <= i,
        forall|j: int| 0 <= j < s.len() ==> !covers(#[trigger] s[j], fd, posicao, tamanho),
    ensures
        first_cover_from(s, fd, posicao, tamanho, i) >= s.len(),
    decreases s.len() - i,
{
    if i < s.len() {
        lemma_none_covers(s, fd, posicao, tamanho, i + 1);
    }
}

/// When only the last block covers the range, the search finds it.
proof fn lemma_cover_last(s: Seq<CacheEntry>, fd: i32, posicao: u64, tamanho: usize, i: int)
    requires
        0 <= i < s.len(),
        covers(s.last(), fd, posicao, tamanho),
        forall|j: int| 0 <= j < s.len() - 1 ==> !covers(#[trigger] s[j], fd, posicao, tamanho),
    ensures
        first_cover_from(s, fd, posicao, tamanho, i) == s.len() - 1,
    decreases s.len() - i,
{
    if i < s.len() - 1 {
        lemma_cover_last(s, fd, posicao, tamanho, i + 1);
    }
}

/// Invalidation drops exactly the blocks of the file that meet the range:
/// none of those is left, and every other block stays.
pub proof fn law_invalidation_drops_exactly_overlaps(
    s: Seq<CacheEntry>,
    fd: i32,
    posicao: u64,
    fim: int,
)
    ensures
        forall|k: int|
            0 <= k < invalidated(s, fd, posicao, fim).len() ==> !overlaps(
                #[trigger] invalidated(s, fd, posicao, fim)[k],
                fd,
                posicao,
                fim,
            ),
        forall|i: int|
            0 <= i < s.len() && !overlaps(s[i], fd, posicao, fim) ==> #[trigger] invalidated(
                s,
                fd,
                posicao,
                fim,
            ).contains(s[i]),
{
    let p = stays(fd, posicao, fim, false);
    assert forall|k: int| 0 <= k < s.filter(p).len() implies !overlaps(
        #[trigger] s.filter(p)[k],
        fd,
        posicao,
        fim,
    ) by {
        s.lemma_filter_pred(p, k);
    }
    assert forall|i: int| 0 <= i < s.len() && !overlaps(s[i], fd, posicao, fim) implies #[trigger] s.filter(
        p,
    ).contains(s[i]) by {
        s.lemma_filter_contains(p, i);
    }
}

/// After dropping every block of `fd`, none is left and the blocks of
/// other descriptors all stay; so no read of `fd` is served from the cache.
pub proof fn law_without_fd(s: Seq<CacheEntry>, fd: i32, posicao: u64, tamanho: usize)
    ensures
        forall|k: int|
            0 <= k < without_fd(s, fd).len() ==> (#[trigger] without_fd(s, fd)[k]).descritor_arquivo
                != fd,
        forall|i: int|
            0 <= i < s.len() && s[i].descritor_arquivo != fd ==> #[trigger] without_fd(
                s,
                fd,
            ).contains(s[i]),
        first_cover(without_fd(s, fd), fd, posicao, tamanho) >= without_fd(s, fd).len(),
{
    let p = stays(fd, 0, 0, true);
    let t = s.filter(p);
    assert forall|k: int| 0 <= k < t.len() implies (#[trigger] t[k]).descritor_arquivo != fd by {
        s.lemma_filter_pred(p, k);
    }
    assert forall|i: int| 0 <= i < s.len() && s[i].descritor_arquivo != fd implies #[trigger] t.contains(
        s[i],
    ) by {
        s.lemma_filter_contains(p, i);
    }
    lemma_none_covers(t, fd, posicao, tamanho, 0);
}

/// A client reads its own write: after it drops its blocks that meet the
/// bytes it wrote, no read of `fd` that meets those bytes is served from its
/// cache.
pub proof fn law_own_write_not_served_from_cache(
    s: Seq<CacheEntry>,
    fd: i32,
    posicao: u64,
    tamanho: usize,
    p2: u64,
    t2: usize,
)
    requires
        p2 <= posicao + tamanho,
        p2 + t2 >= posicao,
    ensures
        first_cover(invalidated(s, fd, posicao, posicao + tamanho), fd, p2, t2) >= invalidated(
            s,
            fd,
            posicao,
            posicao + tamanho,
        ).len(),
{
    let t = invalidated(s, fd, posicao, posicao + tamanho);
    law_invalidation_drops_exactly_overlaps(s, fd, posicao, posicao + tamanho);
    assert forall|j: int| 0 <= j < t.len() implies !covers(#[trigger] t[j], fd, p2, t2) by {
        assert(!overlaps(t[j], fd, posicao, posicao + tamanho));
    }
    lemma_none_covers(t, fd, p2, t2, 0);
}

/// A block read from the server serves the reads it covers: after a read
/// of `bloco` at `inicio` is stored, a read of any part of it that no
/// earlier block covered is served from the cache with the matching bytes
/// of `bloco`, and the cache stays well formed. A block larger than the
/// whole cache is not kept.
pub proof fn law_read_then_served_from_cache(
    s: Seq<CacheEntry>,
    fd: i32,
    inicio: u64,
    bloco: Seq<u8>,
    posicao: u64,
    tamanho: usize,
)
    requires
        cache_wf(s),
        bloco.len() <= MAX_CACHE_SIZE,
        inicio + bloco.len() <= u64::MAX,
        inicio <= posicao,
        posicao + tamanho <= inicio + bloco.len(),
        first_cover(s, fd, posicao, tamanho) >= s.len(),
    ensures
        ({
            let t = stored(
                s,
                CacheEntry {
                    descritor_arquivo: fd,
                    start: inicio,
                    end: (inicio + bloco.len()) as u64,
                    data: bloco,
                },
            );
            let k = first_cover(t, fd, posicao, tamanho);
            &&& cache_wf(t)
            &&& k < t.len()
            &&& cached_bytes(t[k], posicao, tamanho) == bloco.subrange(
                posicao - inicio,
                posicao - inicio + tamanho,
            )
        }),
{
    let e = CacheEntry {
        descritor_arquivo: fd,
        start: inicio,
        end: (inicio + bloco.len()) as u64,
        data: bloco,
    };
    let u = s.push(e);
    let t = stored(s, e);
    lemma_evict_start(u);
    let j = evict_start(u);
    lemma_no_cover_from(s, fd, posicao, tamanho, 0);
    assert(t.last() == e);
    assert forall|i: int| 0 <= i < t.len() - 1 implies !covers(#[trigger] t[i], fd, posicao, tamanho) by {
        assert(t[i] == s[i + j]);
    }
    lemma_cover_last(t, fd, posicao, tamanho, 0);
    assert(cached_bytes(e, posicao, tamanho) =~= bloco.subrange(
        posicao - inicio,
        posicao - inicio + tamanho,
    ));
    assert forall|i: int| 0 <= i < t.len() implies #[trigger] entry_wf(t[i]) by {
        if i < t.len() - 1 {
            assert(t[i] == s[i + j]);
        }
    }
}

/// Block `e`, when it belongs to `fd`, holds the bytes that file contents
/// `f` have in its range.
pub open spec fn agrees_with(e: CacheEntry, fd: i32, f: Seq<u8>) -> bool {
    e.descritor_arquivo == fd ==> e.start <= e.end <= f.len() && e.data == f.subrange(
        e.start as int,
        e.end as int,
    )
}

/// Every block of `fd` in `s` holds the bytes of file contents `f`.
pub open spec fn cache_agrees(s: Seq<CacheEntry>, fd: i32, f: Seq<u8>) -> bool {
    forall|i: int| 0 <= i < s.len() ==> #[trigger] agrees_with(s[i], fd, f)
}

/// File contents `f` after `dados` are written at `posicao`: the written
/// bytes replace those in their range, the file grows to hold them, and a
/// gap before them reads as zeros.
pub open spec fn written(f: Seq<u8>, posicao: int, dados: Seq<u8>) -> Seq<u8> {
    let n = if f.len() >= posicao + dados.len() {
        f.len() as int
    } else {
        posicao + dados.len()
    };
    Seq::new(
        n as nat,
        |i: int|
            if posicao <= i < posicao + dados.len() {
                dados[i - posicao]
            } else if i < f.len() {
                f[i]
            } else {
                0u8
            },
    )
}

/// The block the search finds covers the range.
proof fn lemma_found_covers(s: Seq<CacheEntry>, fd: i32, posicao: u64, tamanho: usize, i: int)
    requires
        0 <= i,
        first_cover_from(s, fd, posicao, tamanho, i) < s.len(),
    ensures
        i <= first_cover_from(s, fd, posicao, tamanho, i),
        covers(s[first_cover_from(s, fd, posicao, tamanho, i)], fd, posicao, tamanho),
    decreases s.len() - i,
{
    if i < s.len() && !covers(s[i], fd, posicao, tamanho) {
        lemma_found_covers(s, fd, posicao, tamanho, i + 1);
    }
}

/// A valid cached copy serves the file's bytes: when every cached block of
/// `fd` holds the bytes of the file contents `f`, a read served from the
/// cache gives exactly `f`'s bytes in the range read.
pub proof fn law_hit_returns_file_bytes(
    s: Seq<CacheEntry>,
    fd: i32,
    f: Seq<u8>,
    posicao: u64,
    tamanho: usize,
)
    requires
        cache_agrees(s, fd, f),
        first_cover(s, fd, posicao, tamanho) < s.len(),
    ensures
        cached_bytes(s[first_cover(s, fd, posicao, tamanho)], posicao, tamanho) == f.subrange(
            posicao as int,
            posicao + tamanho,
        ),
{
    let k = first_cover(s, fd, posicao, tamanho);
    lemma_found_covers(s, fd, posicao, tamanho, 0);
    assert(agrees_with(s[k], fd, f));
    assert(cached_bytes(s[k], posicao, tamanho) =~= f.subrange(posicao as int, posicao + tamanho));
}

/// Keeping a block read from the file keeps the cache valid.
pub proof fn law_store_keeps_agreement(s: Seq<CacheEntry>, fd: i32, f: Seq<u8>, e: CacheEntry)
    requires
        cache_agrees(s, fd, f),
        agrees_with(e, fd, f),
    ensures
        cache_agrees(stored(s, e), fd, f),
{
    let u = s.push(e);
    lemma_evict_start(u);
    let j = evict_start(u);
    let t = stored(s, e);
    assert forall|i: int| 0 <= i < t.len() implies #[trigger] agrees_with(t[i], fd, f) by {
        assert(t[i] == u[i + j]);
        if i + j < s.len() {
            assert(agrees_with(s[i + j], fd, f));
        }
    }
}

/// A client's own write keeps its cache valid: once its blocks that meet
/// the written bytes are dropped, the blocks left hold the bytes of the
/// file as written.
pub proof fn law_own_write_keeps_agreement(
    s: Seq<CacheEntry>,
    fd: i32,
    f: Seq<u8>,
    posicao: u64,
    dados: Seq<u8>,
)
    requires
        cache_agrees(s, fd, f),
    ensures
        cache_agrees(
            invalidated(s, fd, posicao, posicao + dados.len()),
            fd,
            written(f, posicao as int, dados),
        ),
{
    let fim = posicao + dados.len();
    let t = invalidated(s, fd, posicao, fim);
    let g = written(f, posicao as int, dados);
    law_invalidation_drops_exactly_overlaps(s, fd, posicao, fim);
    assert forall|k: int| 0 <= k < t.len() implies #[trigger] agrees_with(t[k], fd, g) by {
        let x = t[k];
        assert(t.contains(x));
        s.lemma_filter_contains_rev(stays(fd, posicao, fim, false), x);
        let i = choose|i: int| 0 <= i < s.len() && s[i] == x;
        assert(agrees_with(s[i], fd, f));
        if x.descritor_arquivo == fd {
            assert(!overlaps(x, fd, posicao, fim));
            assert(x.end <= f.len());
            assert(g.len() >= f.len());
            assert(x.data.len() == x.end - x.start);
            assert forall|j: int| 0 <= j < x.data.len() implies x.data[j] == #[trigger] g[x.start + j] by {
                assert(x.data[j] == f[x.start + j]);
                assert(x.start + j < posicao || x.start + j >= fim);
            }
            assert(x.data =~= g.subrange(x.start as int, x.end as int));
        }
    }
}

/// A cache without blocks of `fd` holds no stale copy of it, whatever the
/// file now holds.
pub proof fn law_dropped_descriptor_agrees(s: Seq<CacheEntry>, fd: i32, f: Seq<u8>)
    ensures
        cache_agrees(without_fd(s, fd), fd, f),
{
    law_without_fd(s, fd, 0, 0);
    let t = without_fd(s, fd);
    assert forall|k: int| 0 <= k < t.len() implies #[trigger] agrees_with(t[k], fd, f) by {
        assert(t[k].descritor_arquivo != fd);
    }
}

impl Client {
    /// The blocks in the cache, oldest first.
    pub closed spec fn cache_view(&self) -> Seq<CacheEntry> {
        self.cache@.map_values(|it: CacheItem| it@)
    }

    /// The bytes the cache counts as held.
    pub closed spec fn bytes_view(&self) -> nat {
        self.bytes as nat
    }

    /// The server's address.
    pub closed spec fn server_view(&self) -> Endereco {
        self.server_address
    }

    /// This client's own address.
    pub closed spec fn client_view(&self) -> Endereco {
        self.client_address
    }

    /// The cache is well formed and its byte count is right.
    pub open spec fn wf(&self) -> bool {
        &&& cache_wf(self.cache_view())
        &&& self.bytes_view() == total(self.cache_view())
    }

    /// A client of the server at `server_address`, itself at
    /// `client_address`, with an empty cache.
    pub fn new(server_address: Endereco, client_address: Endereco) -> (r: Self)
        ensures
            r.wf(),
            r.cache_view() == Seq::<CacheEntry>::empty(),
            r.server_view() == server_address,
            r.client_view() == client_address,
    {
        let r = Self {
            cache: Vec::new(),
            bytes: 0,
            server_address,
            client_address,
            request_factory: StandardRequestFactory,
        };
        assert(r.cache_view() =~= Seq::<CacheEntry>::empty());
        r
    }

    /// The server's address.
    pub fn get_server_address(&self) -> (r: Endereco)
        ensures
            r == self.server_view(),
    {
        self.server_address
    }

    /// This client's own address.
    pub fn get_client_address(&self) -> (r: Endereco)
        ensures
            r == self.client_view(),
    {
        self.client_address
    }

    /// The request that opens `nome_arquivo` under `descritor_arquivo`.
    pub fn pedido_abre(&self, descritor_arquivo: i32, nome_arquivo: String) -> (r: Request)
        ensures
            r@ == (RequestView {
                request_type: crate::protocol::RequestType::Abre,
                descritor_arquivo,
                posicao: 0,
                tamanho: 0,
                data: vstd::utf8::encode_utf8(nome_arquivo@),
            }),
    {
        self.request_factory.create_open_request(descritor_arquivo, nome_arquivo)
    }

    /// The request that reads `tamanho` bytes at `posicao`.
    pub fn pedido_le(&self, descritor_arquivo: i32, posicao: u64, tamanho: usize) -> (r: Request)
        ensures
            r@ == (RequestView {
                request_type: crate::protocol::RequestType::Le,
                descritor_arquivo,
                posicao,
                tamanho: tamanho as u64,
                data: Seq::<u8>::empty(),
            }),
    {
        self.request_factory.create_read_request(descritor_arquivo, posicao, tamanho)
    }

    /// The request that writes `tamanho` bytes of `buffer` at `posicao`.
    pub fn pedido_escreve(
        &self,
        descritor_arquivo: i32,
        posicao: u64,
        buffer: &Vec<u8>,
        tamanho: usize,
    ) -> (r: Request)
        ensures
            r@ == (RequestView {
                request_type: crate::protocol::RequestType::Escreve,
                descritor_arquivo,
                posicao,
                tamanho: tamanho as u64,
                data: buffer@,
            }),
    {
        self.request_factory.create_write_request(descritor_arquivo, posicao, buffer, tamanho)
    }

    /// The request that closes `descritor_arquivo`.
    pub fn pedido_fecha(&self, descritor_arquivo: i32) -> (r: Request)
        ensures
            r@ == (RequestView {
                request_type: crate::protocol::RequestType::Fecha,
                descritor_arquivo,
                posicao: 0,
                tamanho: 0,
                data: Seq::<u8>::empty(),
            }),
    {
        self.request_factory.create_close_request(descritor_arquivo)
    }

    /// The status of an open: 0 when the server answered with success, -1
    /// otherwise (an error, another kind of answer, or no answer).
    pub fn resultado(resposta: &Option<Response>) -> (r: i32)
        ensures
            r == answer_code(opt_view(*resposta)),
    {
        match resposta {
            Some(r) => r.response_type.code(),
            None => -1,
        }
    }

    /// The status of a write of `tamanho` bytes at `posicao` of
    /// `descritor_arquivo`, as for an open. Whatever the answer, the
    /// client's own blocks that meet the written bytes leave its cache.
    pub fn resultado_escreve(
        &mut self,
        descritor_arquivo: i32,
        posicao: u64,
        tamanho: usize,
        resposta: &Option<Response>,
    ) -> (r: i32)
        requires
            old(self).wf(),
        ensures
            final(self).wf(),
            r == answer_code(opt_view(*resposta)),
            final(self).cache_view() == invalidated(
                old(self).cache_view(),
                descritor_arquivo,
                posicao,
                posicao + tamanho,
            ),
            final(self).server_view() == old(self).server_view(),
            final(self).client_view() == old(self).client_view(),
    {
        self.descarta(descritor_arquivo, posicao, posicao as u128 + tamanho as u128, false);
        Self::resultado(resposta)
    }

    /// The status of a close, as for an open. When it succeeded, every
    /// block of the closed descriptor leaves the cache.
    pub fn resultado_fecha(&mut self, descritor_arquivo: i32, resposta: &Option<Response>) -> (r:
        i32)
        requires
            old(self).wf(),
        ensures
            final(self).wf(),
            r == answer_code(opt_view(*resposta)),
            r == 0 ==> final(self).cache_view() == without_fd(
                old(self).cache_view(),
                descritor_arquivo,
            ),
            r != 0 ==> final(self).cache_view() == old(self).cache_view(),
            final(self).server_view() == old(self).server_view(),
            final(self).client_view() == old(self).client_view(),
    {
        let r = Self::resultado(resposta);
        if r == 0 {
            self.descarta(descritor_arquivo, 0, 0, true);
        }
        r
    }

    /// Serves a read of `tamanho` bytes at `posicao` from the cache when a
    /// cached block covers it: the first such block's bytes are appended to
    /// `buffer` and the size is returned. `None` when no block covers it.
    pub fn consulta_cache(
        &self,
        descritor_arquivo: i32,
        posicao: u64,
        tamanho: usize,
        buffer: &mut Vec<u8>,
    ) -> (r: Option<i32>)
        requires
            self.wf(),
        ensures
            ({
                let s = self.cache_view();
                let k = first_cover(s, descritor_arquivo, posicao, tamanho);
                &&& k < s.len() ==> r == Some(tamanho as i32) && final(buffer)@ == old(buffer)@
                    + cached_bytes(s[k], posicao, tamanho)
                &&& k >= s.len() ==> r is None && final(buffer)@ == old(buffer)@
            }),
    {
        let ghost s = self.cache_view();
        let fim: u128 = posicao as u128 + tamanho as u128;
        let mut i: usize = 0;
        while i < self.cache.len()
            invariant
                0 <= i <= s.len(),
                s == self.cache_view(),
                cache_wf(s),
                fim == posicao + tamanho,
                buffer@ == old(buffer)@,
                first_cover(s, descritor_arquivo, posicao, tamanho) == first_cover_from(
                    s,
                    descritor_arquivo,
                    posicao,
                    tamanho,
                    i as int,
                ),
            decreases s.len() - i,
        {
            let item = &self.cache[i];
            assert(item@ == s[i as int]);
            if item.descritor_arquivo == descritor_arquivo && item.start <= posicao && item.end as u128
                >= fim {
                assert(entry_wf(s[i as int]));
                assert(item.end == item.start + item.data@.len());
                assert(covers(s[i as int], descritor_arquivo, posicao, tamanho));
                let tamanho_bloco: usize = item.data.len();
                assert(posicao - item.start + tamanho <= tamanho_bloco);
                let start = (posicao - item.start) as usize;
                let end = start + tamanho;
                append_range(buffer, item.data.as_slice(), start, end);
                return Some(tamanho as i32);
            }
            i = i + 1;
        }
        None
    }

    /// Keeps `item` as the newest block; the oldest blocks leave until the
    /// cache holds at most `MAX_CACHE_SIZE` bytes.
    fn guarda(&mut self, item: CacheItem)
        requires
            old(self).wf(),
            entry_wf(item@),
        ensures
            final(self).wf(),
            final(self).cache_view() == stored(old(self).cache_view(), item@),
            final(self).server_view() == old(self).server_view(),
            final(self).client_view() == old(self).client_view(),
    {
        let ghost s = self.cache_view();
        let ghost e = item@;
        let ghost t = s.push(e);
        assert(t.drop_last() =~= s);
        let tam = item.data.len();
        if tam > MAX_CACHE_SIZE {
            self.cache = Vec::new();
            self.bytes = 0;
            proof {
                lemma_evict_all(t);
                assert(self.cache_view() =~= Seq::<CacheEntry>::empty());
            }
            return;
        }
        self.cache.push(item);
        self.bytes = self.bytes + tam;
        assert(self.cache_view() =~= t);
        while self.bytes > MAX_CACHE_SIZE
            invariant
                kept(self.cache_view()) == kept(t),
                self.bytes == total(self.cache_view()),
                self.bytes <= 2 * MAX_CACHE_SIZE,
                forall|k: int|
                    0 <= k < self.cache_view().len() ==> #[trigger] entry_wf(self.cache_view()[k]),
                self.server_view() == old(self).server_view(),
                self.client_view() == old(self).client_view(),
            decreases self.cache.len(),
        {
            let ghost cur = self.cache_view();
            assert(cur.len() > 0);
            let first = self.cache.remove(0);
            proof {
                lemma_total_drop_first(cur);
                assert(self.cache_view() =~= cur.drop_first());
                lemma_evict_start(cur.drop_first());
                assert(kept(cur) =~= kept(cur.drop_first()));
            }
            self.bytes = self.bytes - first.data.len();
        }
        assert(kept(self.cache_view()) =~= self.cache_view());
    }

    /// Drops the blocks of `fd` that meet `posicao ..= fim`, or all of
    /// them when `todos`; the others stay in their order.
    fn descarta(&mut self, fd: i32, posicao: u64, fim: u128, todos: bool)
        requires
            old(self).wf(),
        ensures
            final(self).wf(),
            final(self).cache_view() == old(self).cache_view().filter(
                stays(fd, posicao, fim as int, todos),
            ),
            final(self).server_view() == old(self).server_view(),
            final(self).client_view() == old(self).client_view(),
    {
        let ghost s = self.cache_view();
        let ghost p = stays(fd, posicao, fim as int, todos);
        let mut i: usize = 0;
        let ghost mut j: int = 0;
        assert(s.subrange(0, 0).filter(p) =~= Seq::<CacheEntry>::empty()) by {
            reveal_with_fuel(Seq::<_>::filter, 1);
        }
        assert(s.subrange(0, s.len() as int) =~= s);
        while i < self.cache.len()
            invariant
                0 <= j <= s.len(),
                cache_wf(s),
                s == old(self).cache_view(),
                self.server_view() == old(self).server_view(),
                self.client_view() == old(self).client_view(),
                p == stays(fd, posicao, fim as int, todos),
                cache_wf(self.cache_view()),
                self.bytes == total(self.cache_view()),
                self.cache_view() == s.subrange(0, j).filter(p) + s.subrange(j, s.len() as int),
                i == s.subrange(0, j).filter(p).len(),
            decreases s.len() - j,
        {
            let ghost before = self.cache_view();
            proof {
                assert(s.subrange(0, j + 1) =~= s.subrange(0, j).push(s[j]));
                s.subrange(0, j).lemma_filter_push(s[j], p);
                assert(before[i as int] == s[j]);
            }
            let item = &self.cache[i];
            if item.descritor_arquivo == fd && (todos || ((item.start as u128) <= fim && item.end
                >= posicao)) {
                let removed = self.cache.remove(i);
                proof {
                    lemma_total_remove(before, i as int);
                    assert(self.cache_view() =~= before.remove(i as int));
                    assert(self.cache_view() =~= s.subrange(0, j + 1).filter(p) + s.subrange(
                        j + 1,
                        s.len() as int,
                    ));
                }
                self.bytes = self.bytes - removed.data.len();
            } else {
                i = i + 1;
                assert(self.cache_view() =~= s.subrange(0, j + 1).filter(p) + s.subrange(
                    j + 1,
                    s.len() as int,
                ));
            }
            proof {
                j = j + 1;
            }
        }
        assert(self.cache_view() =~= s.filter(p));
    }

    /// Applies a cache invalidation: every block of its descriptor leaves
    /// the cache, since after another client's write this client no longer
    /// watches the descriptor.
    pub fn invalidate_cache(&mut self, response: &Response)
        requires
            old(self).wf(),
        ensures
            final(self).wf(),
            final(self).cache_view() == after_notice(old(self).cache_view(), response.data@),
            final(self).server_view() == old(self).server_view(),
            final(self).client_view() == old(self).client_view(),
    {
        let (descriptor, _pos, _size) = Response::parse_atualiza_cache(response);
        self.descarta(descriptor, 0, 0, true);
    }

    /// Handles a message that arrived on the invalidation channel: a
    /// cache invalidation is applied and `true` returned; anything else is
    /// ignored and `false` returned.
    pub fn recebe_aviso(&mut self, response: &Response) -> (r: bool)
        requires
            old(self).wf(),
        ensures
            final(self).wf(),
            r == (response.response_type == ResponseType::AtualizaCache),
            r ==> final(self).cache_view() == after_notice(old(self).cache_view(), response.data@),
            !r ==> final(self).cache_view() == old(self).cache_view(),
            final(self).server_view() == old(self).server_view(),
            final(self).client_view() == old(self).client_view(),
    {
        match response.response_type {
            ResponseType::AtualizaCache => {
                self.invalidate_cache(response);
                true
            },
            _ => false,
        }
    }

    /// Takes the server's answer to a read of `tamanho` bytes at
    /// `posicao` that the cache did not serve. On success the bytes are
    /// appended to `buffer`, kept in the cache as the newest block, and the
    /// size is returned. A cache invalidation is applied and gives -1; an
    /// error, or no answer, gives -1.
    pub fn resultado_le(
        &mut self,
        descritor_arquivo: i32,
        posicao: u64,
        tamanho: usize,
        resposta: Option<Response>,
        buffer: &mut Vec<u8>,
    ) -> (r: i32)
        requires
            old(self).wf(),
            resposta matches Some(x) ==> (x.response_type == ResponseType::Sucesso ==> tamanho
                <= x.data.len() && posicao + tamanho <= u64::MAX),
        ensures
            final(self).wf(),
            final(self).server_view() == old(self).server_view(),
            final(self).client_view() == old(self).client_view(),
            match resposta {
                Some(x) => match x.response_type {
                    ResponseType::Sucesso => {
                        let bloco = x.data@.take(tamanho as int);
                        &&& r == tamanho as i32
                        &&& final(buffer)@ == old(buffer)@ + bloco
                        &&& final(self).cache_view() == stored(
                            old(self).cache_view(),
                            CacheEntry {
                                descritor_arquivo,
                                start: posicao,
                                end: (posicao + tamanho) as u64,
                                data: bloco,
                            },
                        )
                    },
                    ResponseType::AtualizaCache => {
                        &&& r == -1
                        &&& final(buffer)@ == old(buffer)@
                        &&& final(self).cache_view() == after_notice(
                            old(self).cache_view(),
                            x.data@,
                        )
                    },
                    ResponseType::Erro => {
                        &&& r == -1
                        &&& final(buffer)@ == old(buffer)@
                        &&& final(self).cache_view() == old(self).cache_view()
                    },
                },
                None => {
                    &&& r == -1
                    &&& final(buffer)@ == old(buffer)@
                    &&& final(self).cache_view() == old(self).cache_view()
                },
            },
    {
        match resposta {
            None => -1,
            Some(x) => match x.response_type {
                ResponseType::Sucesso => {
                    append_range(buffer, x.data.as_slice(), 0, tamanho);
                    let mut bloco: Vec<u8> = Vec::new();
                    append_range(&mut bloco, x.data.as_slice(), 0, tamanho);
                    assert(bloco@ =~= x.data@.take(tamanho as int));
                    assert(buffer@ =~= old(buffer)@ + x.data@.take(tamanho as int));
                    let item = CacheItem {
                        descritor_arquivo,
                        start: posicao,
                        end: posicao + tamanho as u64,
                        data: bloco,
                    };
                    self.guarda(item);
                    tamanho as i32
                },
                ResponseType::AtualizaCache => {
                    self.invalidate_cache(&x);
                    -1
                },
                ResponseType::Erro => -1,
            },
        }
    }
}

} // verus!
