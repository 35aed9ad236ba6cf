//! The server side: the table of open files, the clients that watch each
//! descriptor, and what the server answers to each request.
//!
//! A client that opens a descriptor starts watching it. Reads, writes
//! and closes are refused to a client that does not watch the descriptor.
//! After a write, every other watcher of the descriptor is sent a cache
//! invalidation for the written range, and only the writer keeps
//! watching. A close closes the descriptor in the file table and stops the
//! client watching it.
//!
//! Opening, reading, writing and closing the file on disk, and sending
//! the answers, is done by the caller: `tarefa` says which file work a
//! request needs, and the operation takes its outcome.
use std::collections::HashMap;
use vstd::prelude::*;
use vstd::utf8::{decode_utf8, encode_utf8, valid_utf8};
use crate::endereco::Endereco;
use crate::file_manager::{FileManager, transfer_code};
use crate::protocol::{
    BUFFER_SIZE, Request, RequestType, Response, ResponseType, ResponseView,
    StandardResponseFactory, error_data, notice_data,
};
use crate::bytes::{be_u32, push_u32};

verus! {

broadcast use vstd::std_specs::hash::group_hash_axioms;

/// Calls `std::str::from_utf8`, which returns the text that `bytes`
/// encode when they are valid UTF-8 and an error otherwise. Claimed here:
/// a text comes back exactly when the bytes are valid UTF-8, and its
/// UTF-8 encoding is `bytes`.
#[verifier::external_body]
fn texto_utf8(bytes: &[u8]) -> (r: Option<&str>)
    ensures
        r is Some <==> valid_utf8(bytes@),
        r matches Some(s) ==> encode_utf8(s@) == bytes@,
{
    std::str::from_utf8(bytes).ok()
}

/// The file name of an open request whose payload is `dados`, from the
/// text that `texto_utf8` made of it: that text when its UTF-8 encoding is
/// `dados` byte for byte, and no name otherwise. Whatever `texto` holds, a
/// name that comes back encodes to `dados` and is `dados` decoded.
pub fn nome_do_texto(dados: &[u8], texto: Option<&str>) -> (r: Option<String>)
    ensures
        r is Some <==> (texto is Some && encode_utf8(texto.unwrap()@) == dados@),
        r matches Some(n) ==> encode_utf8(n@) == dados@ && n@ == decode_utf8(dados@),
{
    match texto {
        None => None,
        Some(s) => {
            let b = s.as_bytes();
            if b.len() != dados.len() {
                return None;
            }
            let mut i: usize = 0;
            while i < b.len()
                invariant
                    texto == Some(s),
                    i <= b.len(),
                    b.len() == dados.len(),
                    b@ == encode_utf8(s@),
                    forall|j: int| 0 <= j < i ==> b@[j] == dados@[j],
                decreases b.len() - i,
            {
                if b[i] != dados[i] {
                    proof {
                        assert(encode_utf8(s@)[i as int] != dados@[i as int]);
                    }
                    return None;
                }
                i = i + 1;
            }
            proof {
                assert(b@ =~= dados@);
                vstd::utf8::encode_utf8_decode_utf8(s@);
            }
            Some(s.to_owned())
        },
    }
}

/// How long the server waits without a connection before it stops.
pub const TEMPO_OCIOSO_MS: u64 = 1000;

/// How long the server sleeps between two looks for a connection.
pub const ESPERA_MS: u64 = 50;

/// What the server's loop does next.
#[derive(PartialEq, Eq, Structural, Clone, Copy, Debug)]
pub enum PassoServidor {
    /// Serve the connection that came.
    Atender,
    /// Sleep `ESPERA_MS`, then look again.
    Esperar,
    /// Stop: nothing came for `TEMPO_OCIOSO_MS`.
    Parar,
}

/// What the server's loop does when a look for a connection found one
/// (`conexao`) or not, after `ocioso_ms` milliseconds without activity: a
/// connection is served; without one the server stops once it has been
/// idle for `TEMPO_OCIOSO_MS`, and waits otherwise.
pub fn passo_servidor(conexao: bool, ocioso_ms: u64) -> (r: PassoServidor)
    ensures
        conexao ==> r == PassoServidor::Atender,
        !conexao && ocioso_ms >= TEMPO_OCIOSO_MS ==> r == PassoServidor::Parar,
        !conexao && ocioso_ms < TEMPO_OCIOSO_MS ==> r == PassoServidor::Esperar,
{
    if conexao {
        PassoServidor::Atender
    } else if ocioso_ms >= TEMPO_OCIOSO_MS {
        PassoServidor::Parar
    } else {
        PassoServidor::Esperar
    }
}

/// The file work a request needs before the server can answer it.
pub enum Tarefa {
    /// None: the answer does not depend on the disk.
    Nenhuma,
    /// Open the named file, creating it when it does not exist.
    Criar(String),
    /// Read from the named file.
    Ler(String),
    /// Write to the named file.
    Escrever(String),
    /// Reach the named file to close it.
    Fechar(String),
}

/// What the server does after a write: the answer to the writer, and the
/// notice to send to each of `destinatarios`.
pub struct Escrita {
    pub resposta: Response,
    pub aviso: Option<Response>,
    pub destinatarios: Vec<Endereco>,
}

/// The file server.
pub struct Server {
    files: FileManager,
    address: Endereco,
    file_watchers: HashMap<i32, Vec<Endereco>>,
    response_factory: StandardResponseFactory,
}

/// The clients watching `fd`, none when nobody does.
pub open spec fn watchers_of(w: Map<i32, Seq<Endereco>>, fd: i32) -> Seq<Endereco> {
    if w.contains_key(fd) {
        w[fd]
    } else {
        Seq::empty()
    }
}

/// Client `c` may use `fd`: it watches it.
pub open spec fn allowed(w: Map<i32, Seq<Endereco>>, fd: i32, c: Endereco) -> bool {
    w.contains_key(fd) && w[fd].contains(c)
}

/// The watchers after `c` closes `fd`: `c` leaves the list.
pub open spec fn after_close(w: Map<i32, Seq<Endereco>>, fd: i32, c: Endereco) -> Map<
    i32,
    Seq<Endereco>,
> {
    w.insert(fd, without(w[fd], c))
}

/// Every open descriptor has a list of watchers.
pub open spec fn table_wf(f: Map<u32, Seq<char>>, w: Map<i32, Seq<Endereco>>) -> bool {
    forall|fd: i32| #[trigger] f.contains_key(fd as u32) ==> w.contains_key(fd)
}

/// The entries of `s` that are `c` (when `iguais`) or that are not `c`,
/// in their order.
pub open spec fn keep(s: Seq<Endereco>, c: Endereco, iguais: bool) -> Seq<Endereco> {
    s.filter(keep_pred(c, iguais))
}

/// Whether an entry is `c` (when `iguais`) or is not `c`.
pub open spec fn keep_pred(c: Endereco, iguais: bool) -> spec_fn(Endereco) -> bool {
    |x: Endereco| (x == c) == iguais
}

/// The entries of `s` that are `c`.
pub open spec fn only(s: Seq<Endereco>, c: Endereco) -> Seq<Endereco> {
    keep(s, c, true)
}

/// The entries of `s` that are not `c`.
pub open spec fn without(s: Seq<Endereco>, c: Endereco) -> Seq<Endereco> {
    keep(s, c, false)
}

/// The error answer the server gives to a request it cannot serve.
pub open spec fn refusal() -> ResponseView {
    ResponseView { response_type: ResponseType::Erro, data: error_data(-1i32) }
}

/// Different descriptors have different table keys.
proof fn lemma_key_injective(a: i32, b: i32)
    ensures
        a as u32 == b as u32 ==> a == b,
{
    assert(a as u32 == b as u32 ==> a == b) by (bit_vector);
}

/// The tables stay well formed when only `fd` changes: a descriptor newly
/// open can only be `fd`, every other descriptor keeps its watchers, and
/// `fd` has watchers while it is open.
proof fn lemma_table_wf_update(
    f: Map<u32, Seq<char>>,
    w: Map<i32, Seq<Endereco>>,
    f2: Map<u32, Seq<char>>,
    w2: Map<i32, Seq<Endereco>>,
    fd: i32,
)
    requires
        table_wf(f, w),
        forall|k: u32| #[trigger] f2.contains_key(k) ==> f.contains_key(k) || k == fd as u32,
        forall|g: i32| #[trigger] w.contains_key(g) && g != fd ==> w2.contains_key(g),
        f2.contains_key(fd as u32) ==> w2.contains_key(fd),
    ensures
        table_wf(f2, w2),
{
    assert forall|g: i32| #[trigger] f2.contains_key(g as u32) implies w2.contains_key(g) by {
        lemma_key_injective(g, fd);
        if g != fd {
            assert(f.contains_key(g as u32));
            assert(w.contains_key(g));
        }
    }
}

/// The entries of `v` that are `c` (when `iguais`) or that are not `c`.
fn filtra(v: &Vec<Endereco>, c: Endereco, iguais: bool) -> (r: Vec<Endereco>)
    ensures
        r@ == keep(v@, c, iguais),
{
    let ghost p = keep_pred(c, iguais);
    let mut r: Vec<Endereco> = Vec::new();
    let mut i: usize = 0;
    assert(v@.subrange(0, 0).filter(p) =~= Seq::<Endereco>::empty()) by {
        reveal_with_fuel(Seq::<_>::filter, 1);
    }
    while i < v.len()
        invariant
            0 <= i <= v@.len(),
            p == keep_pred(c, iguais),
            r@ == v@.subrange(0, i as int).filter(p),
        decreases v@.len() - i,
    {
        let x = v[i];
        proof {
            assert(v@.subrange(0, i + 1) =~= v@.subrange(0, i as int).push(x));
            v@.subrange(0, i as int).lemma_filter_push(x, p);
        }
        if (x == c) == iguais {
            r.push(x);
        }
        i = i + 1;
    }
    assert(v@.subrange(0, v@.len() as int) =~= v@);
    r
}

/// Whether `v` holds `c`.
fn contem(v: &Vec<Endereco>, c: Endereco) -> (r: bool)
    ensures
        r == v@.contains(c),
{
    let mut i: usize = 0;
    while i < v.len()
        invariant
            0 <= i <= v@.len(),
            forall|j: int| 0 <= j < i ==> v@[j] != c,
        decreases v@.len() - i,
    {
        if v[i] == c {
            return true;
        }
        i = i + 1;
    }
    false
}

/// A client that opened a descriptor may use it.
pub proof fn law_open_grants_access(w: Map<i32, Seq<Endereco>>, fd: i32, c: Endereco)
    ensures
        allowed(w.insert(fd, watchers_of(w, fd).push(c)), fd, c),
{
    let n = watchers_of(w, fd).push(c);
    assert(n[n.len() - 1] == c);
}

/// After a client opens a new descriptor for a file, the descriptor
/// refers to that file and the client may use it: its reads, writes and
/// closes go to that file.
pub proof fn law_opened_descriptor_refers_to_file(
    f: Map<u32, Seq<char>>,
    w: Map<i32, Seq<Endereco>>,
    fd: i32,
    nome: Seq<char>,
    c: Endereco,
)
    requires
        !f.contains_key(fd as u32),
    ensures
        ({
            let f2 = f.insert(fd as u32, nome);
            let w2 = w.insert(fd, watchers_of(w, fd).push(c));
            &&& f2.contains_key(fd as u32)
            &&& f2[fd as u32] == nome
            &&& allowed(w2, fd, c)
        }),
{
    law_open_grants_access(w, fd, c);
}

/// A client that closed a descriptor may not use it any more, and the
/// other clients that watched it still do.
pub proof fn law_close_revokes_access(w: Map<i32, Seq<Endereco>>, fd: i32, c: Endereco, d: Endereco)
    requires
        w.contains_key(fd),
    ensures
        !allowed(after_close(w, fd, c), fd, c),
        d != c && allowed(w, fd, d) ==> allowed(after_close(w, fd, c), fd, d),
{
    let s = w[fd];
    let n = without(s, c);
    if n.contains(c) {
        let k = choose|k: int| 0 <= k < n.len() && n[k] == c;
        s.lemma_filter_pred(keep_pred(c, false), k);
    }
    if d != c && allowed(w, fd, d) {
        let k = choose|k: int| 0 <= k < s.len() && s[k] == d;
        s.lemma_filter_contains(keep_pred(c, false), k);
    }
}

/// After a write by a client allowed to make it, that client is the only
/// one watching the descriptor, and it still may use it.
pub proof fn law_write_leaves_only_writer(w: Map<i32, Seq<Endereco>>, fd: i32, c: Endereco)
    requires
        w.contains_key(fd),
        allowed(w, fd, c),
    ensures
        ({
            let n = w.insert(fd, only(w[fd], c));
            &&& allowed(n, fd, c)
            &&& forall|k: int| 0 <= k < n[fd].len() ==> #[trigger] n[fd][k] == c
        }),
{
    let s = w[fd];
    let k = choose|k: int| 0 <= k < s.len() && s[k] == c;
    s.lemma_filter_contains(keep_pred(c, true), k);
    assert forall|j: int| 0 <= j < only(s, c).len() implies #[trigger] only(s, c)[j] == c by {
        s.lemma_filter_pred(keep_pred(c, true), j);
    }
}

impl Server {
    /// The open descriptors with their file names.
    pub closed spec fn files_view(&self) -> Map<u32, Seq<char>> {
        self.files@
    }

    /// The clients watching each descriptor.
    pub closed spec fn watchers_view(&self) -> Map<i32, Seq<Endereco>> {
        self.file_watchers@.map_values(|v: Vec<Endereco>| v@)
    }

    /// The server's own address.
    pub closed spec fn address_view(&self) -> Endereco {
        self.address
    }

    /// Every open descriptor has a list of watchers.
    pub open spec fn wf(&self) -> bool {
        table_wf(self.files_view(), self.watchers_view())
    }

    /// A server at `address` with no open file.
    pub fn new(address: Endereco) -> (r: Self)
        ensures
            r.wf(),
            r.files_view() == Map::<u32, Seq<char>>::empty(),
            r.watchers_view() == Map::<i32, Seq<Endereco>>::empty(),
            r.address_view() == address,
    {
        let r = Self {
            files: FileManager::new(),
            address,
            file_watchers: HashMap::new(),
            response_factory: StandardResponseFactory,
        };
        assert(r.watchers_view() =~= Map::<i32, Seq<Endereco>>::empty());
        r
    }

    /// The server's address.
    pub fn get_address(&self) -> (r: Endereco)
        ensures
            r == self.address_view(),
    {
        self.address
    }

    /// Whether `client` may use the request's descriptor: whether it
    /// watches it.
    pub fn has_open(&self, request: &Request, client: Endereco) -> (r: bool)
        ensures
            r == allowed(self.watchers_view(), request.descritor_arquivo, client),
    {
        match self.file_watchers.get(&request.descritor_arquivo) {
            Some(usrs) => contem(usrs, client),
            None => false,
        }
    }

    /// The file work that `request` from `client` needs: to open a
    /// descriptor not yet in the table, the file named by the request;
    /// to read, write or close a descriptor that `client` watches and
    /// that is open, its file; nothing otherwise.
    pub fn tarefa(&self, request: &Request, client: Endereco) -> (r: Tarefa)
        requires
            request.request_type == RequestType::Abre ==> valid_utf8(request.data@),
        ensures
            r matches Tarefa::Criar(s) ==> encode_utf8(s@) == request.data@,
            ({
                let fd = request.descritor_arquivo;
                let open = self.files_view().contains_key(fd as u32);
                let ok = allowed(self.watchers_view(), fd, client) && open;
                match request.request_type {
                    RequestType::Abre => if open {
                        r is Nenhuma
                    } else {
                        r matches Tarefa::Criar(s) && s@ == decode_utf8(request.data@)
                    },
                    RequestType::Le => if ok {
                        r matches Tarefa::Ler(s) && s@ == self.files_view()[fd as u32]
                    } else {
                        r is Nenhuma
                    },
                    RequestType::Escreve => if ok {
                        r matches Tarefa::Escrever(s) && s@ == self.files_view()[fd as u32]
                    } else {
                        r is Nenhuma
                    },
                    RequestType::Fecha => if ok {
                        r matches Tarefa::Fechar(s) && s@ == self.files_view()[fd as u32]
                    } else {
                        r is Nenhuma
                    },
                }
            }),
    {
        let chave = request.descritor_arquivo as u32;
        match request.request_type {
            RequestType::Abre => {
                if self.files.precisa_abrir(chave) {
                    match self.nome_pedido(request) {
                        Some(nome) => Tarefa::Criar(nome),
                        None => Tarefa::Nenhuma,
                    }
                } else {
                    Tarefa::Nenhuma
                }
            },
            _ => {
                if !self.has_open(request, client) {
                    return Tarefa::Nenhuma;
                }
                match self.files.nome(chave) {
                    None => Tarefa::Nenhuma,
                    Some(nome) => match request.request_type {
                        RequestType::Le => Tarefa::Ler(nome),
                        RequestType::Escreve => Tarefa::Escrever(nome),
                        _ => Tarefa::Fechar(nome),
                    },
                }
            },
        }
    }

    /// The file name that an open request carries: its payload read as
    /// UTF-8 text. A name that comes back is checked here, byte for byte,
    /// to encode to the payload; one comes back whenever the payload is
    /// valid UTF-8.
    fn nome_pedido(&self, request: &Request) -> (r: Option<String>)
        ensures
            r matches Some(n) ==> encode_utf8(n@) == request.data@ && n@ == decode_utf8(
                request.data@,
            ),
            valid_utf8(request.data@) ==> r is Some,
    {
        let texto = texto_utf8(request.data.as_slice());
        nome_do_texto(request.data.as_slice(), texto)
    }

    /// Takes the watchers of `fd` out of the table.
    fn tira_lista(&mut self, fd: i32) -> (r: Vec<Endereco>)
        requires
            old(self).watchers_view().contains_key(fd),
        ensures
            r@ == old(self).watchers_view()[fd],
            final(self).watchers_view() == old(self).watchers_view().remove(fd),
            final(self).files_view() == old(self).files_view(),
            final(self).address_view() == old(self).address_view(),
    {
        let lista = match self.file_watchers.remove(&fd) {
            Some(v) => v,
            None => {
                proof {
                    assert(false);
                }
                Vec::new()
            },
        };
        assert(self.watchers_view() =~= old(self).watchers_view().remove(fd));
        lista
    }

    /// Puts `lista` as the watchers of `fd`.
    fn poe_lista(&mut self, fd: i32, lista: Vec<Endereco>)
        ensures
            final(self).watchers_view() == old(self).watchers_view().insert(fd, lista@),
            final(self).files_view() == old(self).files_view(),
            final(self).address_view() == old(self).address_view(),
    {
        self.file_watchers.insert(fd, lista);
        assert(self.watchers_view() =~= old(self).watchers_view().insert(fd, lista@));
    }

    /// Opens the request's descriptor for `client`. When the descriptor is
    /// already open, or `criado` says its file was opened or created, the
    /// descriptor refers to the file, `client` starts watching it, and no
    /// answer is sent. Otherwise the server answers with an error and
    /// nothing changes.
    pub fn abre(&mut self, request: &Request, client: Endereco, criado: bool) -> (r: Option<
        Response,
    >)
        requires
            old(self).wf(),
            valid_utf8(request.data@),
        ensures
            final(self).wf(),
            final(self).address_view() == old(self).address_view(),
            ({
                let fd = request.descritor_arquivo;
                let k = fd as u32;
                let w = old(self).watchers_view();
                let f = old(self).files_view();
                if f.contains_key(k) || criado {
                    &&& r is None
                    &&& final(self).files_view() == (if f.contains_key(k) {
                        f
                    } else {
                        f.insert(k, decode_utf8(request.data@))
                    })
                    &&& final(self).watchers_view() == w.insert(fd, watchers_of(w, fd).push(client))
                } else {
                    &&& r matches Some(x) && x@ == refusal()
                    &&& final(self).files_view() == f
                    &&& final(self).watchers_view() == w
                }
            }),
    {
        let fd = request.descritor_arquivo;
        let nome_arquivo = match self.nome_pedido(request) {
            Some(n) => n,
            None => {
                return Some(self.response_factory.create_error_response(-1));
            },
        };
        if self.files.abre(fd as u32, nome_arquivo, criado) != 0 {
            return Some(self.response_factory.create_error_response(-1));
        }
        let mut lista = if self.file_watchers.contains_key(&fd) {
            self.tira_lista(fd)
        } else {
            Vec::new()
        };
        lista.push(client);
        self.poe_lista(fd, lista);
        proof {
            assert(self.watchers_view() =~= old(self).watchers_view().insert(
                fd,
                watchers_of(old(self).watchers_view(), fd).push(client),
            ));
            lemma_table_wf_update(
                old(self).files_view(),
                old(self).watchers_view(),
                self.files_view(),
                self.watchers_view(),
                fd,
            );
        }
        None
    }

    /// Answers a read request from `client`. `lido` is the buffer of
    /// `BUFFER_SIZE` bytes the file was read into, or none when the file
    /// could not be read. The answer is a success carrying the buffer when
    /// `client` watches the descriptor, it is open and the read succeeded;
    /// an error otherwise.
    pub fn le(&self, request: &Request, client: Endereco, lido: Option<Vec<u8>>) -> (r: Response)
        requires
            lido matches Some(b) ==> b.len() == BUFFER_SIZE,
        ensures
            ({
                let fd = request.descritor_arquivo;
                if allowed(self.watchers_view(), fd, client) && self.files_view().contains_key(
                    fd as u32,
                ) && lido is Some {
                    r@ == (ResponseView {
                        response_type: ResponseType::Sucesso,
                        data: lido->0@,
                    })
                } else {
                    r@ == refusal()
                }
            }),
    {
        if !self.has_open(request, client) {
            return self.response_factory.create_error_response(-1);
        }
        let (buffer, ok) = match lido {
            Some(b) => (b, true),
            None => (Vec::new(), false),
        };
        let i = self.files.le(request.descritor_arquivo as u32, &buffer, request.tamanho as usize, ok);
        if i == -1 {
            self.response_factory.create_error_response(-1)
        } else {
            assert(i == BUFFER_SIZE);
            self.response_factory.create_success_response(buffer)
        }
    }

    /// Answers a write request from `client`; `escrito` says whether the
    /// bytes reached the file. When `client` watches the descriptor, it is
    /// open and the write succeeded: the answer is a success carrying the
    /// status code, every other client that watched the descriptor is to be
    /// sent a cache invalidation for the written range, and only `client`
    /// keeps watching it. Otherwise the answer is an error and nothing
    /// changes.
    pub fn escreve(&mut self, request: &Request, client: Endereco, escrito: bool) -> (r: Escrita)
        requires
            old(self).wf(),
        ensures
            final(self).wf(),
            final(self).address_view() == old(self).address_view(),
            final(self).files_view() == old(self).files_view(),
            ({
                let fd = request.descritor_arquivo;
                let w = old(self).watchers_view();
                let tamanho = request.tamanho as usize;
                let code = transfer_code(request.data.len(), tamanho);
                if allowed(w, fd, client) && old(self).files_view().contains_key(fd as u32)
                    && escrito && code != -1 {
                    &&& r.resposta@ == (ResponseView {
                        response_type: ResponseType::Sucesso,
                        data: be_u32(code as u32),
                    })
                    &&& r.aviso matches Some(a) && a@ == (ResponseView {
                        response_type: ResponseType::AtualizaCache,
                        data: notice_data(fd, request.posicao, tamanho),
                    })
                    &&& r.destinatarios@ == without(w[fd], client)
                    &&& final(self).watchers_view() == w.insert(fd, only(w[fd], client))
                } else {
                    &&& r.resposta@ == refusal()
                    &&& r.aviso is None
                    &&& r.destinatarios@ == Seq::<Endereco>::empty()
                    &&& final(self).watchers_view() == w
                }
            }),
    {
        let fd = request.descritor_arquivo;
        if !self.has_open(request, client) {
            return Escrita {
                resposta: self.response_factory.create_error_response(-1),
                aviso: None,
                destinatarios: Vec::new(),
            };
        }
        let tamanho = request.tamanho as usize;
        let i = self.files.escreve(fd as u32, &request.data, tamanho, escrito);
        if i == -1 {
            return Escrita {
                resposta: self.response_factory.create_error_response(-1),
                aviso: None,
                destinatarios: Vec::new(),
            };
        }
        let aviso = self.response_factory.create_cache_invalidation(fd, request.posicao, tamanho);
        let lista = self.tira_lista(fd);
        let destinatarios = filtra(&lista, client, false);
        let restantes = filtra(&lista, client, true);
        self.poe_lista(fd, restantes);
        proof {
            assert(self.watchers_view() =~= old(self).watchers_view().insert(
                fd,
                only(lista@, client),
            ));
            lemma_table_wf_update(
                old(self).files_view(),
                old(self).watchers_view(),
                self.files_view(),
                self.watchers_view(),
                fd,
            );
        }
        let mut dados: Vec<u8> = Vec::new();
        push_u32(&mut dados, i as u32);
        assert(dados@ =~= be_u32(i as u32));
        Escrita {
            resposta: self.response_factory.create_success_response(dados),
            aviso: Some(aviso),
            destinatarios,
        }
    }

    /// Answers a close request from `client`; `fechado` says whether the
    /// file could be reached. When `client` watches the descriptor, it is
    /// open and the file was reached, the descriptor is closed in the file
    /// table, `client` stops watching it, and no answer is sent. Otherwise
    /// the answer is an error and nothing changes.
    pub fn fecha(&mut self, request: &Request, client: Endereco, fechado: bool) -> (r: Option<
        Response,
    >)
        requires
            old(self).wf(),
        ensures
            final(self).wf(),
            final(self).address_view() == old(self).address_view(),
            ({
                let fd = request.descritor_arquivo;
                let w = old(self).watchers_view();
                let f = old(self).files_view();
                if allowed(w, fd, client) && f.contains_key(fd as u32) && fechado {
                    &&& r is None
                    &&& final(self).watchers_view() == after_close(w, fd, client)
                    &&& final(self).files_view() == f.remove(fd as u32)
                } else {
                    &&& r matches Some(x) && x@ == refusal()
                    &&& final(self).watchers_view() == w
                    &&& final(self).files_view() == f
                }
            }),
    {
        let fd = request.descritor_arquivo;
        if !self.has_open(request, client) {
            return Some(self.response_factory.create_error_response(-1));
        }
        if self.files.fecha(fd as u32, fechado) != 0 {
            return Some(self.response_factory.create_error_response(-1));
        }
        let lista = self.tira_lista(fd);
        let restantes = filtra(&lista, client, false);
        self.poe_lista(fd, restantes);
        assert(self.watchers_view() =~= after_close(old(self).watchers_view(), fd, client));
        proof {
            lemma_table_wf_update(
                old(self).files_view(),
                old(self).watchers_view(),
                self.files_view(),
                self.watchers_view(),
                fd,
            );
        }
        None
    }
}

} // verus!
