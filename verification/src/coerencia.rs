//! Cache coherence across clients.
//!
//! The server keeps, for each descriptor, the clients watching it, and
//! after a write tells every other watcher to drop its copies. So a client
//! may keep a block only of a descriptor it watches: that is `coherent`.
//! Every step of the protocol keeps it, and under it a write by one client
//! leaves no other client serving the old bytes from its cache once the
//! notice is applied.
use vstd::prelude::*;
use crate::client::{
    CacheEntry, after_notice, first_cover, invalidated, lemma_evict_start, law_without_fd,
    law_own_write_not_served_from_cache, law_invalidation_drops_exactly_overlaps, stored,
    without_fd, evict_start,
};
use crate::endereco::Endereco;
use crate::protocol::{law_notice_roundtrip, notice_data};
use crate::server::{
    after_close, allowed, keep_pred, law_close_revokes_access, law_write_leaves_only_writer,
    only, watchers_of, without,
};

verus! {

/// Client `a` watches every descriptor it holds a block of.
pub open spec fn coherent(w: Map<i32, Seq<Endereco>>, a: Endereco, s: Seq<CacheEntry>) -> bool {
    forall|i: int| 0 <= i < s.len() ==> allowed(w, (#[trigger] s[i]).descritor_arquivo, a)
}

/// A write by `b` to `fd` reaches every other client that holds a block of
/// `fd`: such a client is among the recipients of the notice; once it has
/// applied the notice it holds no block of `fd`, so no read of `fd` is
/// served from its cache, and it is coherent with the watchers after the
/// write. A client that is not a recipient holds no block of `fd` and stays
/// coherent as it is.
pub proof fn law_write_reaches_every_other_cache(
    w: Map<i32, Seq<Endereco>>,
    fd: i32,
    b: Endereco,
    a: Endereco,
    s: Seq<CacheEntry>,
    posicao: u64,
    tamanho: usize,
)
    requires
        coherent(w, a, s),
        a != b,
        allowed(w, fd, b),
    ensures
        (exists|i: int| 0 <= i < s.len() && (#[trigger] s[i]).descritor_arquivo == fd) ==> without(
            w[fd],
            b,
        ).contains(a),
        ({
            let w2 = w.insert(fd, only(w[fd], b));
            let s2 = after_notice(s, notice_data(fd, posicao, tamanho));
            &&& coherent(w2, a, s2)
            &&& forall|p2: u64, t2: usize| #[trigger] first_cover(s2, fd, p2, t2) >= s2.len()
            &&& !without(w[fd], b).contains(a) ==> coherent(w2, a, s)
        }),
{
    let w2 = w.insert(fd, only(w[fd], b));
    law_notice_roundtrip(fd, posicao, tamanho);
    let s2 = without_fd(s, fd);
    assert(after_notice(s, notice_data(fd, posicao, tamanho)) == s2);
    if exists|i: int| 0 <= i < s.len() && (#[trigger] s[i]).descritor_arquivo == fd {
        let i = choose|i: int| 0 <= i < s.len() && (#[trigger] s[i]).descritor_arquivo == fd;
        assert(allowed(w, s[i].descritor_arquivo, a));
        let k = choose|k: int| 0 <= k < w[fd].len() && w[fd][k] == a;
        w[fd].lemma_filter_contains(keep_pred(b, false), k);
    }
    law_without_fd(s, fd, 0, 0);
    assert forall|k: int| 0 <= k < s2.len() implies allowed(w2, (#[trigger] s2[k]).descritor_arquivo, a) by {
        let x = s2[k];
        assert(s2.contains(x));
        s.lemma_filter_contains_rev(crate::client::stays(fd, 0, 0, true), x);
        let i = choose|i: int| 0 <= i < s.len() && s[i] == x;
        assert(allowed(w, s[i].descritor_arquivo, a));
    }
    assert forall|p2: u64, t2: usize| #[trigger] first_cover(s2, fd, p2, t2) >= s2.len() by {
        law_without_fd(s, fd, p2, t2);
    }
    if !without(w[fd], b).contains(a) {
        assert forall|i: int| 0 <= i < s.len() implies allowed(w2, (#[trigger] s[i]).descritor_arquivo, a) by {
            assert(allowed(w, s[i].descritor_arquivo, a));
            if s[i].descritor_arquivo == fd {
                let k = choose|k: int| 0 <= k < w[fd].len() && w[fd][k] == a;
                w[fd].lemma_filter_contains(keep_pred(b, false), k);
            }
        }
    }
}

/// The writer stays coherent after its own write, and no read of its own
/// that meets the written bytes is served from its cache.
pub proof fn law_writer_stays_coherent(
    w: Map<i32, Seq<Endereco>>,
    fd: i32,
    b: Endereco,
    s: Seq<CacheEntry>,
    posicao: u64,
    tamanho: usize,
)
    requires
        coherent(w, b, s),
        allowed(w, fd, b),
    ensures
        ({
            let s2 = invalidated(s, fd, posicao, posicao + tamanho);
            &&& coherent(w.insert(fd, only(w[fd], b)), b, s2)
            &&& forall|p2: u64, t2: usize|
                p2 <= posicao + tamanho && p2 + t2 >= posicao ==> #[trigger] first_cover(
                    s2,
                    fd,
                    p2,
                    t2,
                ) >= s2.len()
        }),
{
    let w2 = w.insert(fd, only(w[fd], b));
    let p = crate::client::stays(fd, posicao, posicao + tamanho, false);
    let s2 = s.filter(p);
    law_write_leaves_only_writer(w, fd, b);
    law_invalidation_drops_exactly_overlaps(s, fd, posicao, posicao + tamanho);
    assert forall|k: int| 0 <= k < s2.len() implies allowed(w2, (#[trigger] s2[k]).descritor_arquivo, b) by {
        let x = s2[k];
        assert(s2.contains(x));
        s.lemma_filter_contains_rev(p, x);
        let i = choose|i: int| 0 <= i < s.len() && s[i] == x;
        assert(allowed(w, s[i].descritor_arquivo, b));
    }
    assert forall|p2: u64, t2: usize|
        p2 <= posicao + tamanho && p2 + t2 >= posicao implies #[trigger] first_cover(
            s2,
            fd,
            p2,
            t2,
        ) >= s2.len() by {
        law_own_write_not_served_from_cache(s, fd, posicao, tamanho, p2, t2);
    }
}

/// Keeping a block read from a descriptor the client watches keeps it
/// coherent.
pub proof fn law_read_keeps_coherence(
    w: Map<i32, Seq<Endereco>>,
    a: Endereco,
    s: Seq<CacheEntry>,
    e: CacheEntry,
)
    requires
        coherent(w, a, s),
        allowed(w, e.descritor_arquivo, a),
    ensures
        coherent(w, a, stored(s, e)),
{
    let u = s.push(e);
    lemma_evict_start(u);
    let j = evict_start(u);
    let t = stored(s, e);
    assert forall|i: int| 0 <= i < t.len() implies allowed(w, (#[trigger] t[i]).descritor_arquivo, a) by {
        assert(t[i] == u[i + j]);
        if i + j < s.len() {
            assert(allowed(w, s[i + j].descritor_arquivo, a));
        }
    }
}

/// An open, by any client, keeps every client coherent.
pub proof fn law_open_keeps_coherence(
    w: Map<i32, Seq<Endereco>>,
    fd: i32,
    c: Endereco,
    a: Endereco,
    s: Seq<CacheEntry>,
)
    requires
        coherent(w, a, s),
    ensures
        coherent(w.insert(fd, watchers_of(w, fd).push(c)), a, s),
{
    let w2 = w.insert(fd, watchers_of(w, fd).push(c));
    assert forall|i: int| 0 <= i < s.len() implies allowed(w2, (#[trigger] s[i]).descritor_arquivo, a) by {
        assert(allowed(w, s[i].descritor_arquivo, a));
        if s[i].descritor_arquivo == fd {
            let k = choose|k: int| 0 <= k < w[fd].len() && w[fd][k] == a;
            assert(w2[fd][k] == a);
        }
    }
}

/// A close by `a` keeps every client coherent: `a` drops its blocks of the
/// descriptor, and the other watchers keep watching it.
pub proof fn law_close_keeps_coherence(
    w: Map<i32, Seq<Endereco>>,
    fd: i32,
    a: Endereco,
    s: Seq<CacheEntry>,
    d: Endereco,
    sd: Seq<CacheEntry>,
)
    requires
        w.contains_key(fd),
        coherent(w, a, s),
        coherent(w, d, sd),
        d != a,
    ensures
        coherent(after_close(w, fd, a), a, without_fd(s, fd)),
        coherent(after_close(w, fd, a), d, sd),
{
    let w2 = after_close(w, fd, a);
    let s2 = without_fd(s, fd);
    law_without_fd(s, fd, 0, 0);
    assert forall|k: int| 0 <= k < s2.len() implies allowed(w2, (#[trigger] s2[k]).descritor_arquivo, a) by {
        let x = s2[k];
        assert(s2.contains(x));
        s.lemma_filter_contains_rev(crate::client::stays(fd, 0, 0, true), x);
        let i = choose|i: int| 0 <= i < s.len() && s[i] == x;
        assert(allowed(w, s[i].descritor_arquivo, a));
    }
    assert forall|i: int| 0 <= i < sd.len() implies allowed(w2, (#[trigger] sd[i]).descritor_arquivo, d) by {
        assert(allowed(w, sd[i].descritor_arquivo, d));
        law_close_revokes_access(w, fd, a, d);
    }
}

} // verus!
