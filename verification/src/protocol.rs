//! Requests from clients, responses from the server, and the frames
//! that carry them.
//!
//! A request frame is a tag byte, the descriptor (4 bytes), the position
//! and the size (8 bytes each), the length of the payload (8 bytes) and
//! the payload. A response frame is a tag byte, the length of the payload
//! (8 bytes) and the payload. All integers are big-endian. A frame is read
//! into a zero-filled buffer: a byte that never arrived reads as zero, and
//! a payload is cut where the buffer ends.
use vstd::prelude::*;
use vstd::utf8::encode_utf8;
use crate::bytes::{
    join_u64,
    lemma_read_be_u32, lemma_read_be_u64, append_range, be_u32, be_u64, byte_at, get_byte, get_u32, get_u64, push_u32, push_u64, read_u32,
    read_u64,
};

verus! {

/// Size of the buffers that frames are read into.
pub const BUFFER_SIZE: usize = 1024;

/// Bytes before the payload in a request frame.
pub const REQUEST_HEADER: usize = 29;

/// Bytes before the payload in a response frame.
pub const RESPONSE_HEADER: usize = 9;

/// What a client asks for.
#[derive(PartialEq, Eq, Structural, Clone, Copy, Debug)]
pub enum RequestType {
    Abre,
    Le,
    Escreve,
    Fecha,
}

/// What the server answers.
#[derive(PartialEq, Eq, Structural, Clone, Copy, Debug)]
pub enum ResponseType {
    Sucesso,
    Erro,
    AtualizaCache,
}

/// A request: the operation, the descriptor it is about, a position and
/// a size in the file, and a payload (the file name to open, or the
/// bytes to write).
pub struct Request {
    pub request_type: RequestType,
    pub descritor_arquivo: i32,
    pub posicao: u64,
    pub tamanho: u64,
    pub data: Vec<u8>,
}

/// A response: its kind and its payload.
pub struct Response {
    pub response_type: ResponseType,
    pub data: Vec<u8>,
}

/// A request as a mathematical value.
pub struct RequestView {
    pub request_type: RequestType,
    pub descritor_arquivo: i32,
    pub posicao: u64,
    pub tamanho: u64,
    pub data: Seq<u8>,
}

/// A response as a mathematical value.
pub struct ResponseView {
    pub response_type: ResponseType,
    pub data: Seq<u8>,
}

impl View for Request {
    type V = RequestView;

    open spec fn view(&self) -> RequestView {
        RequestView {
            request_type: self.request_type,
            descritor_arquivo: self.descritor_arquivo,
            posicao: self.posicao,
            tamanho: self.tamanho,
            data: self.data@,
        }
    }
}

impl View for Response {
    type V = ResponseView;

    open spec fn view(&self) -> ResponseView {
        ResponseView { response_type: self.response_type, data: self.data@ }
    }
}

/// The tag byte of a request type.
pub open spec fn request_tag(t: RequestType) -> u8 {
    match t {
        RequestType::Abre => 0,
        RequestType::Le => 1,
        RequestType::Escreve => 2,
        RequestType::Fecha => 3,
    }
}

/// The request type of a tag byte; none for an unknown tag.
pub open spec fn request_type_of(tag: u8) -> Option<RequestType> {
    if tag == 0 {
        Some(RequestType::Abre)
    } else if tag == 1 {
        Some(RequestType::Le)
    } else if tag == 2 {
        Some(RequestType::Escreve)
    } else if tag == 3 {
        Some(RequestType::Fecha)
    } else {
        None
    }
}

/// The tag byte of a response type.
pub open spec fn response_tag(t: ResponseType) -> u8 {
    match t {
        ResponseType::Sucesso => 0,
        ResponseType::Erro => 1,
        ResponseType::AtualizaCache => 2,
    }
}

/// The response type of a tag byte: an unknown tag is an error.
pub open spec fn response_type_of(tag: u8) -> ResponseType {
    if tag == 0 {
        ResponseType::Sucesso
    } else if tag == 2 {
        ResponseType::AtualizaCache
    } else {
        ResponseType::Erro
    }
}

/// The status code of a response type: 0 for success, -1 for anything
/// else (an error, or a cache invalidation where an answer was due).
pub open spec fn response_code(t: ResponseType) -> i32 {
    match t {
        ResponseType::Sucesso => 0i32,
        ResponseType::Erro => -1i32,
        ResponseType::AtualizaCache => -1i32,
    }
}

/// The payload of a frame whose header is `header` bytes long and
/// announces `len` bytes: as many of them as the frame holds.
pub open spec fn frame_payload(b: Seq<u8>, header: int, len: u64) -> Seq<u8> {
    let avail = if b.len() > header {
        b.len() - header
    } else {
        0
    };
    let n = if (len as int) < avail {
        len as int
    } else {
        avail
    };
    if n > 0 {
        b.subrange(header, header + n)
    } else {
        Seq::empty()
    }
}

/// The frame of a request.
pub open spec fn request_frame(r: RequestView) -> Seq<u8> {
    seq![request_tag(r.request_type)] + be_u32(r.descritor_arquivo as u32) + be_u64(r.posicao)
        + be_u64(r.tamanho) + be_u64(r.data.len() as u64) + r.data
}

/// The request that a frame carries; none when its tag is unknown.
pub open spec fn request_of_frame(b: Seq<u8>) -> Option<RequestView> {
    match request_type_of(byte_at(b, 0)) {
        None => None,
        Some(t) => Some(
            RequestView {
                request_type: t,
                descritor_arquivo: read_u32(b, 1) as i32,
                posicao: read_u64(b, 5),
                tamanho: read_u64(b, 13),
                data: frame_payload(b, REQUEST_HEADER as int, read_u64(b, 21)),
            },
        ),
    }
}

/// The frame of a response.
pub open spec fn response_frame(r: ResponseView) -> Seq<u8> {
    seq![response_tag(r.response_type)] + be_u64(r.data.len() as u64) + r.data
}

/// The response that a frame carries.
pub open spec fn response_of_frame(b: Seq<u8>) -> ResponseView {
    ResponseView {
        response_type: response_type_of(byte_at(b, 0)),
        data: frame_payload(b, RESPONSE_HEADER as int, read_u64(b, 1)),
    }
}

/// The payload of a cache invalidation: descriptor, position and size.
pub open spec fn notice_data(fd: i32, posicao: u64, tamanho: usize) -> Seq<u8> {
    be_u32(fd as u32) + be_u64(posicao) + be_u64(tamanho as u64)
}

/// Descriptor, position and size read from a cache invalidation's payload.
pub open spec fn notice_of(d: Seq<u8>) -> (i32, u64, usize) {
    (read_u32(d, 0) as i32, read_u64(d, 4), read_u64(d, 12) as usize)
}

/// The payload of an error response carrying `code`.
pub open spec fn error_data(code: i32) -> Seq<u8> {
    be_u32(code as u32)
}

/// A `u32` read back as an `i32` is the `i32` it was made from.
proof fn lemma_i32_u32(x: i32)
    ensures
        (x as u32) as i32 == x,
{
    assert((x as u32) as i32 == x) by (bit_vector);
}

/// A request survives its frame: reading the frame of a request gives
/// the request back.
pub proof fn law_request_frame_roundtrip(r: RequestView)
    requires
        r.data.len() <= u64::MAX,
    ensures
        request_of_frame(request_frame(r)) == Some(r),
{
    let t = seq![request_tag(r.request_type)];
    let f = be_u32(r.descritor_arquivo as u32);
    let p = be_u64(r.posicao);
    let s = be_u64(r.tamanho);
    let l = be_u64(r.data.len() as u64);
    let b = request_frame(r);
    assert(b =~= t + f + (p + s + l + r.data));
    lemma_read_be_u32(t, r.descritor_arquivo as u32, p + s + l + r.data);
    lemma_i32_u32(r.descritor_arquivo);
    assert(b =~= (t + f) + p + (s + l + r.data));
    lemma_read_be_u64(t + f, r.posicao, s + l + r.data);
    assert(b =~= (t + f + p) + s + (l + r.data));
    lemma_read_be_u64(t + f + p, r.tamanho, l + r.data);
    assert(b =~= (t + f + p + s) + l + r.data);
    lemma_read_be_u64(t + f + p + s, r.data.len() as u64, r.data);
    assert(byte_at(b, 0) == request_tag(r.request_type));
    assert(b.len() == REQUEST_HEADER + r.data.len());
    assert(frame_payload(b, REQUEST_HEADER as int, r.data.len() as u64) =~= r.data);
}

/// A response survives its frame: reading the frame of a response gives
/// the response back.
pub proof fn law_response_frame_roundtrip(r: ResponseView)
    requires
        r.data.len() <= u64::MAX,
    ensures
        response_of_frame(response_frame(r)) == r,
{
    let t = seq![response_tag(r.response_type)];
    let b = response_frame(r);
    lemma_read_be_u64(t, r.data.len() as u64, r.data);
    assert(byte_at(b, 0) == response_tag(r.response_type));
    assert(frame_payload(b, RESPONSE_HEADER as int, r.data.len() as u64) =~= r.data);
}

/// A response cut short by the buffer it is read into keeps its kind and
/// the part of its payload that fits.
pub proof fn law_response_frame_prefix(r: ResponseView, k: int)
    requires
        r.data.len() <= u64::MAX,
        RESPONSE_HEADER <= k <= response_frame(r).len(),
    ensures
        response_of_frame(response_frame(r).take(k)) == (ResponseView {
            response_type: r.response_type,
            data: r.data.take(k - RESPONSE_HEADER),
        }),
{
    let t = seq![response_tag(r.response_type)];
    let b = response_frame(r).take(k);
    assert(b =~= t + be_u64(r.data.len() as u64) + r.data.take(k - RESPONSE_HEADER));
    lemma_read_be_u64(t, r.data.len() as u64, r.data.take(k - RESPONSE_HEADER));
    assert(frame_payload(b, RESPONSE_HEADER as int, r.data.len() as u64) =~= r.data.take(
        k - RESPONSE_HEADER,
    ));
}

/// A buffer that stayed all zeros, as when the server closes the
/// connection without answering, reads as a success with no payload.
pub proof fn law_silent_reply_is_success(n: nat)
    ensures
        response_of_frame(Seq::new(n, |i: int| 0u8)) == (ResponseView {
            response_type: ResponseType::Sucesso,
            data: Seq::<u8>::empty(),
        }),
{
    let b = Seq::new(n, |i: int| 0u8);
    assert(join_u64(0, 0, 0, 0, 0, 0, 0, 0) == 0) by {
        assert(((0u8 as u64) << 56u64) | ((0u8 as u64) << 48u64) | ((0u8 as u64) << 40u64) | ((
        0u8 as u64) << 32u64) | ((0u8 as u64) << 24u64) | ((0u8 as u64) << 16u64) | ((0u8 as u64)
            << 8u64) | (0u8 as u64) == 0u64) by (bit_vector);
    }
    assert(read_u64(b, 1) == 0);
    assert(frame_payload(b, RESPONSE_HEADER as int, 0) =~= Seq::<u8>::empty());
}

/// A cache invalidation carries exactly the descriptor, position and size
/// it was made with.
pub proof fn law_notice_roundtrip(fd: i32, posicao: u64, tamanho: usize)
    ensures
        notice_of(notice_data(fd, posicao, tamanho)) == (fd, posicao, tamanho),
{
    let f = be_u32(fd as u32);
    let p = be_u64(posicao);
    let s = be_u64(tamanho as u64);
    let d = notice_data(fd, posicao, tamanho);
    assert(d =~= Seq::<u8>::empty() + f + (p + s));
    lemma_read_be_u32(Seq::<u8>::empty(), fd as u32, p + s);
    lemma_i32_u32(fd);
    assert(d =~= f + p + s);
    lemma_read_be_u64(f, posicao, s);
    assert(d =~= (f + p) + s + Seq::<u8>::empty());
    lemma_read_be_u64(f + p, tamanho as u64, Seq::<u8>::empty());
}

impl ResponseType {
    /// The status code of this response type.
    pub fn code(&self) -> (r: i32)
        ensures
            r == response_code(*self),
    {
        match self {
            ResponseType::Sucesso => 0,
            ResponseType::Erro => -1,
            ResponseType::AtualizaCache => -1,
        }
    }
}

impl Request {
    /// The frame that carries `request`.
    pub fn serialize(request: Request) -> (r: Vec<u8>)
        ensures
            r@ == request_frame(request@),
    {
        let mut out: Vec<u8> = Vec::new();
        let tag: u8 = match request.request_type {
            RequestType::Abre => 0,
            RequestType::Le => 1,
            RequestType::Escreve => 2,
            RequestType::Fecha => 3,
        };
        out.push(tag);
        push_u32(&mut out, request.descritor_arquivo as u32);
        push_u64(&mut out, request.posicao);
        push_u64(&mut out, request.tamanho);
        push_u64(&mut out, request.data.len() as u64);
        append_range(&mut out, request.data.as_slice(), 0, request.data.len());
        assert(request.data@.subrange(0, request.data@.len() as int) =~= request.data@);
        assert(out@ =~= request_frame(request@));
        out
    }

    /// The request that `buffer` carries, or none when its tag is unknown.
    pub fn desserialize(buffer: &[u8]) -> (r: Option<Request>)
        ensures
            match r {
                Some(q) => request_of_frame(buffer@) == Some(q@),
                None => request_of_frame(buffer@) is None,
            },
    {
        let request_type = match get_byte(buffer, 0) {
            0 => RequestType::Abre,
            1 => RequestType::Le,
            2 => RequestType::Escreve,
            3 => RequestType::Fecha,
            _ => {
                return None;
            },
        };
        let descritor_arquivo = get_u32(buffer, 1) as i32;
        let posicao = get_u64(buffer, 5);
        let tamanho = get_u64(buffer, 13);
        let len = get_u64(buffer, 21);
        let data = payload(buffer, REQUEST_HEADER, len);
        let r = Request { request_type, descritor_arquivo, posicao, tamanho, data };
        assert(request_of_frame(buffer@) == Some(r@));
        Some(r)
    }
}

/// The payload of a frame: the `len` bytes after the header, as far as
/// the buffer goes.
fn payload(buffer: &[u8], header: usize, len: u64) -> (r: Vec<u8>)
    ensures
        r@ == frame_payload(buffer@, header as int, len),
{
    let avail: usize = if buffer.len() > header {
        buffer.len() - header
    } else {
        0
    };
    let n: usize = if (len as u128) < (avail as u128) {
        len as usize
    } else {
        avail
    };
    let mut out: Vec<u8> = Vec::new();
    if n > 0 {
        append_range(&mut out, buffer, header, header + n);
    }
    out
}

impl Response {
    /// The frame that carries `response`.
    pub fn serialize(response: &Response) -> (r: Vec<u8>)
        ensures
            r@ == response_frame(response@),
    {
        let mut out: Vec<u8> = Vec::new();
        let tag: u8 = match response.response_type {
            ResponseType::Sucesso => 0,
            ResponseType::Erro => 1,
            ResponseType::AtualizaCache => 2,
        };
        out.push(tag);
        push_u64(&mut out, response.data.len() as u64);
        append_range(&mut out, response.data.as_slice(), 0, response.data.len());
        assert(response.data@.subrange(0, response.data@.len() as int) =~= response.data@);
        assert(out@ =~= response_frame(response@));
        out
    }

    /// The response that `buffer` carries.
    pub fn desserialize(buffer: &[u8]) -> (r: Response)
        ensures
            r@ == response_of_frame(buffer@),
    {
        let response_type = match get_byte(buffer, 0) {
            0 => ResponseType::Sucesso,
            2 => ResponseType::AtualizaCache,
            _ => ResponseType::Erro,
        };
        let len = get_u64(buffer, 1);
        let data = payload(buffer, RESPONSE_HEADER, len);
        Response { response_type, data }
    }

    /// Descriptor, position and size that a cache invalidation carries.
    pub fn parse_atualiza_cache(response: &Response) -> (r: (i32, u64, usize))
        ensures
            r == notice_of(response.data@),
    {
        let d = response.data.as_slice();
        (get_u32(d, 0) as i32, get_u64(d, 4), get_u64(d, 12) as usize)
    }
}

/// Builds the requests that a client sends.
pub struct StandardRequestFactory;

impl StandardRequestFactory {
    /// A request to open the file `nome_arquivo` under `descritor_arquivo`.
    pub fn create_open_request(&self, descritor_arquivo: i32, nome_arquivo: String) -> (r:
        Request)
        ensures
            r@ == (RequestView {
                request_type: RequestType::Abre,
                descritor_arquivo,
                posicao: 0,
                tamanho: 0,
                data: encode_utf8(nome_arquivo@),
            }),
    {
        let bytes = nome_arquivo.as_str().as_bytes();
        let mut data: Vec<u8> = Vec::new();
        append_range(&mut data, bytes, 0, bytes.len());
        assert(bytes@.subrange(0, bytes@.len() as int) =~= bytes@);
        Request { request_type: RequestType::Abre, descritor_arquivo, posicao: 0, tamanho: 0, data }
    }

    /// A request to read `tamanho` bytes at `posicao`.
    pub fn create_read_request(&self, descritor_arquivo: i32, posicao: u64, tamanho: usize) -> (r:
        Request)
        ensures
            r@ == (RequestView {
                request_type: RequestType::Le,
                descritor_arquivo,
                posicao,
                tamanho: tamanho as u64,
                data: Seq::<u8>::empty(),
            }),
    {
        Request {
            request_type: RequestType::Le,
            descritor_arquivo,
            posicao,
            tamanho: tamanho as u64,
            data: Vec::new(),
        }
    }

    /// A request to write the first `tamanho` bytes of `buffer` at
    /// `posicao`; the whole buffer travels, the server takes `tamanho`.
    pub fn create_write_request(
        &self,
        descritor_arquivo: i32,
        posicao: u64,
        buffer: &Vec<u8>,
        tamanho: usize,
    ) -> (r: Request)
        ensures
            r@ == (RequestView {
                request_type: RequestType::Escreve,
                descritor_arquivo,
                posicao,
                tamanho: tamanho as u64,
                data: buffer@,
            }),
    {
        let mut data: Vec<u8> = Vec::new();
        append_range(&mut data, buffer.as_slice(), 0, buffer.len());
        assert(buffer@.subrange(0, buffer@.len() as int) =~= buffer@);
        Request {
            request_type: RequestType::Escreve,
            descritor_arquivo,
            posicao,
            tamanho: tamanho as u64,
            data,
        }
    }

    /// A request to close `descritor_arquivo`.
    pub fn create_close_request(&self, descritor_arquivo: i32) -> (r: Request)
        ensures
            r@ == (RequestView {
                request_type: RequestType::Fecha,
                descritor_arquivo,
                posicao: 0,
                tamanho: 0,
                data: Seq::<u8>::empty(),
            }),
    {
        Request {
            request_type: RequestType::Fecha,
            descritor_arquivo,
            posicao: 0,
            tamanho: 0,
            data: Vec::new(),
        }
    }
}

/// Builds the responses that the server sends.
pub struct StandardResponseFactory;

impl StandardResponseFactory {
    /// An error response carrying `code`.
    pub fn create_error_response(&self, code: i32) -> (r: Response)
        ensures
            r@ == (ResponseView { response_type: ResponseType::Erro, data: error_data(code) }),
    {
        let mut data: Vec<u8> = Vec::new();
        push_u32(&mut data, code as u32);
        assert(data@ =~= error_data(code));
        Response { response_type: ResponseType::Erro, data }
    }

    /// A success response carrying `data`.
    pub fn create_success_response(&self, data: Vec<u8>) -> (r: Response)
        ensures
            r@ == (ResponseView { response_type: ResponseType::Sucesso, data: data@ }),
    {
        Response { response_type: ResponseType::Sucesso, data }
    }

    /// A notice that the bytes `posicao .. posicao + tamanho` of
    /// `descritor_arquivo` changed.
    pub fn create_cache_invalidation(&self, descritor_arquivo: i32, posicao: u64, tamanho: usize) -> (r:
        Response)
        ensures
            r@ == (ResponseView {
                response_type: ResponseType::AtualizaCache,
                data: notice_data(descritor_arquivo, posicao, tamanho),
            }),
    {
        let mut data: Vec<u8> = Vec::new();
        push_u32(&mut data, descritor_arquivo as u32);
        push_u64(&mut data, posicao);
        push_u64(&mut data, tamanho as u64);
        assert(data@ =~= notice_data(descritor_arquivo, posicao, tamanho));
        Response { response_type: ResponseType::AtualizaCache, data }
    }
}

} // verus!
