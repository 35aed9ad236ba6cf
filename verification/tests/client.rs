use remote_file_system::client::{Client, MAX_CACHE_SIZE};
use remote_file_system::endereco::Endereco;
use remote_file_system::protocol::{
    RequestType, Response, ResponseType, StandardResponseFactory,
};

fn client() -> Client {
    Client::new(Endereco::ipv4(127, 0, 0, 1, 8080), Endereco::ipv4(127, 0, 0, 1, 8081))
}

fn success(data: Vec<u8>) -> Option<Response> {
    Some(StandardResponseFactory.create_success_response(data))
}

#[test]
fn addresses() {
    let c = client();
    let s = c.get_server_address();
    assert_eq!(s, Endereco { ipv6: false, ip: 0x7f00_0001, porta: 8080 });
    assert_eq!(c.get_client_address().porta, 8081);
}

#[test]
fn results_of_open_and_write() {
    assert_eq!(Client::resultado(&None), -1);
    assert_eq!(Client::resultado(&success(vec![])), 0);
    assert_eq!(Client::resultado(&Some(StandardResponseFactory.create_error_response(-1))), -1);
    let notice = StandardResponseFactory.create_cache_invalidation(0, 0, 1);
    assert_eq!(Client::resultado(&Some(notice)), -1);
}

#[test]
fn results_of_close() {
    let mut c = client();
    assert_eq!(c.resultado_fecha(0, &None), -1);
    assert_eq!(c.resultado_fecha(0, &success(vec![])), 0);
    assert_eq!(c.resultado_fecha(0, &Some(StandardResponseFactory.create_error_response(-1))), -1);
    let notice = StandardResponseFactory.create_cache_invalidation(0, 0, 1);
    assert_eq!(c.resultado_fecha(0, &Some(notice)), -1);
}

#[test]
fn close_drops_the_descriptors_blocks() {
    let mut c = client();
    let mut buffer = vec![];
    c.resultado_le(0, 0, 2, success(vec![1, 2]), &mut buffer);
    c.resultado_le(1, 0, 2, success(vec![3, 4]), &mut buffer);
    let mut out = vec![];
    assert_eq!(c.resultado_fecha(0, &Some(StandardResponseFactory.create_error_response(-1))), -1);
    assert_eq!(c.consulta_cache(0, 0, 2, &mut out), Some(2));
    assert_eq!(c.resultado_fecha(0, &success(vec![])), 0);
    assert_eq!(c.consulta_cache(0, 0, 2, &mut out), None);
    assert_eq!(c.consulta_cache(1, 0, 2, &mut out), Some(2));
    assert_eq!(out, vec![1, 2, 3, 4]);
}

#[test]
fn requests() {
    let c = client();
    let r = c.pedido_abre(4, String::from("file.txt"));
    assert_eq!(r.request_type, RequestType::Abre);
    assert_eq!(r.descritor_arquivo, 4);
    assert_eq!(r.data, b"file.txt".to_vec());
    let r = c.pedido_le(4, 10, 3);
    assert_eq!(r.request_type, RequestType::Le);
    assert_eq!((r.posicao, r.tamanho), (10, 3));
    let r = c.pedido_escreve(4, 10, &vec![1, 2, 3], 3);
    assert_eq!(r.request_type, RequestType::Escreve);
    assert_eq!(r.data, vec![1, 2, 3]);
    let r = c.pedido_fecha(4);
    assert_eq!(r.request_type, RequestType::Fecha);
}

#[test]
fn empty_cache_misses() {
    let c = client();
    let mut buffer = vec![];
    assert_eq!(c.consulta_cache(0, 0, 4, &mut buffer), None);
    assert!(buffer.is_empty());
}

#[test]
fn read_then_served_from_cache() {
    let mut c = client();
    let mut buffer = vec![];
    let r = c.resultado_le(0, 100, 4, success(vec![1, 2, 3, 4, 9, 9]), &mut buffer);
    assert_eq!(r, 4);
    assert_eq!(buffer, vec![1, 2, 3, 4]);
    let mut again = vec![];
    assert_eq!(c.consulta_cache(0, 100, 4, &mut again), Some(4));
    assert_eq!(again, vec![1, 2, 3, 4]);
    let mut inner = vec![7];
    assert_eq!(c.consulta_cache(0, 101, 2, &mut inner), Some(2));
    assert_eq!(inner, vec![7, 2, 3]);
}

#[test]
fn cache_misses_outside_the_block() {
    let mut c = client();
    let mut buffer = vec![];
    c.resultado_le(0, 100, 4, success(vec![1, 2, 3, 4]), &mut buffer);
    let mut other = vec![];
    assert_eq!(c.consulta_cache(0, 99, 2, &mut other), None);
    assert_eq!(c.consulta_cache(0, 102, 3, &mut other), None);
    assert_eq!(c.consulta_cache(1, 100, 4, &mut other), None);
    assert!(other.is_empty());
}

#[test]
fn first_covering_block_wins() {
    let mut c = client();
    let mut buffer = vec![];
    c.resultado_le(0, 0, 4, success(vec![1, 1, 1, 1]), &mut buffer);
    c.resultado_le(0, 0, 8, success(vec![2; 8]), &mut buffer);
    let mut out = vec![];
    assert_eq!(c.consulta_cache(0, 1, 2, &mut out), Some(2));
    assert_eq!(out, vec![1, 1]);
    let mut out = vec![];
    assert_eq!(c.consulta_cache(0, 4, 2, &mut out), Some(2));
    assert_eq!(out, vec![2, 2]);
}

#[test]
fn notice_drops_every_block_of_its_descriptor() {
    let mut c = client();
    let mut buffer = vec![];
    c.resultado_le(0, 0, 4, success(vec![1, 2, 3, 4]), &mut buffer);
    c.resultado_le(0, 100, 4, success(vec![5, 6, 7, 8]), &mut buffer);
    c.resultado_le(1, 0, 4, success(vec![9, 9, 9, 9]), &mut buffer);
    c.invalidate_cache(&StandardResponseFactory.create_cache_invalidation(0, 2, 1));
    let mut out = vec![];
    assert_eq!(c.consulta_cache(0, 0, 4, &mut out), None);
    assert_eq!(c.consulta_cache(0, 100, 4, &mut out), None);
    assert_eq!(c.consulta_cache(1, 0, 4, &mut out), Some(4));
    assert_eq!(out, vec![9, 9, 9, 9]);
}

#[test]
fn own_write_drops_overlapping_blocks_only() {
    let mut c = client();
    let mut buffer = vec![];
    c.resultado_le(0, 0, 4, success(vec![1, 2, 3, 4]), &mut buffer);
    c.resultado_le(0, 100, 4, success(vec![5, 6, 7, 8]), &mut buffer);
    c.resultado_le(1, 0, 4, success(vec![9, 9, 9, 9]), &mut buffer);
    assert_eq!(c.resultado_escreve(0, 2, 1, &success(vec![0, 0, 0, 1])), 0);
    let mut out = vec![];
    assert_eq!(c.consulta_cache(0, 0, 4, &mut out), None);
    assert_eq!(c.consulta_cache(0, 100, 4, &mut out), Some(4));
    assert_eq!(c.consulta_cache(1, 0, 4, &mut out), Some(4));
    assert_eq!(out, vec![5, 6, 7, 8, 9, 9, 9, 9]);
}

#[test]
fn own_write_touching_the_end_drops_the_block() {
    let mut c = client();
    let mut buffer = vec![];
    c.resultado_le(0, 0, 10, success(vec![0; 10]), &mut buffer);
    c.resultado_le(0, 20, 10, success(vec![0; 10]), &mut buffer);
    assert_eq!(c.resultado_escreve(0, 10, 0, &None), -1);
    let mut out = vec![];
    assert_eq!(c.consulta_cache(0, 0, 10, &mut out), None);
    assert_eq!(c.consulta_cache(0, 20, 10, &mut out), Some(10));
}

#[test]
fn write_answer_codes() {
    let mut c = client();
    assert_eq!(c.resultado_escreve(0, 0, 1, &success(vec![])), 0);
    assert_eq!(c.resultado_escreve(0, 0, 1, &Some(StandardResponseFactory.create_error_response(-1))), -1);
    let notice = StandardResponseFactory.create_cache_invalidation(0, 0, 1);
    assert_eq!(c.resultado_escreve(0, 0, 1, &Some(notice)), -1);
}

#[test]
fn invalidation_answer_to_a_read() {
    let mut c = client();
    let mut buffer = vec![];
    c.resultado_le(2, 0, 3, success(vec![1, 2, 3]), &mut buffer);
    let notice = StandardResponseFactory.create_cache_invalidation(2, 0, 3);
    let mut out = vec![];
    assert_eq!(c.resultado_le(2, 10, 3, Some(notice), &mut out), -1);
    assert!(out.is_empty());
    assert_eq!(c.consulta_cache(2, 0, 3, &mut out), None);
}

#[test]
fn error_or_no_answer_to_a_read() {
    let mut c = client();
    let mut out = vec![5];
    let err = Some(StandardResponseFactory.create_error_response(-1));
    assert_eq!(c.resultado_le(0, 0, 3, err, &mut out), -1);
    assert_eq!(c.resultado_le(0, 0, 3, None, &mut out), -1);
    assert_eq!(out, vec![5]);
    assert_eq!(c.consulta_cache(0, 0, 3, &mut out), None);
}

#[test]
fn notices_on_the_invalidation_channel() {
    let mut c = client();
    let mut buffer = vec![];
    c.resultado_le(0, 0, 2, success(vec![1, 2]), &mut buffer);
    let other = Response { response_type: ResponseType::Sucesso, data: vec![] };
    assert!(!c.recebe_aviso(&other));
    let mut out = vec![];
    assert_eq!(c.consulta_cache(0, 0, 2, &mut out), Some(2));
    assert!(c.recebe_aviso(&StandardResponseFactory.create_cache_invalidation(0, 1, 1)));
    assert_eq!(c.consulta_cache(0, 0, 2, &mut out), None);
}

#[test]
fn zero_sized_read_is_cached() {
    let mut c = client();
    let mut buffer = vec![];
    assert_eq!(c.resultado_le(0, 5, 0, success(vec![]), &mut buffer), 0);
    let mut out = vec![];
    assert_eq!(c.consulta_cache(0, 5, 0, &mut out), Some(0));
    assert!(out.is_empty());
}

#[test]
fn cache_holds_at_most_its_size_in_bytes() {
    let mut c = client();
    let mut buffer = vec![];
    let half = MAX_CACHE_SIZE / 2;
    c.resultado_le(0, 0, half, success(vec![1; half]), &mut buffer);
    c.resultado_le(1, 0, half, success(vec![2; half]), &mut buffer);
    let mut out = vec![];
    assert_eq!(c.consulta_cache(0, 0, 1, &mut out), Some(1));
    c.resultado_le(2, 0, 1, success(vec![3]), &mut buffer);
    assert_eq!(c.consulta_cache(0, 0, 1, &mut out), None);
    assert_eq!(c.consulta_cache(1, 0, 1, &mut out), Some(1));
    assert_eq!(c.consulta_cache(2, 0, 1, &mut out), Some(1));
    assert_eq!(out, vec![1, 2, 3]);
}

#[test]
fn full_block_then_another_drops_it() {
    let mut c = client();
    let mut buffer = vec![];
    c.resultado_le(0, 0, MAX_CACHE_SIZE, success(vec![1; MAX_CACHE_SIZE]), &mut buffer);
    let mut out = vec![];
    assert_eq!(c.consulta_cache(0, 5, 1, &mut out), Some(1));
    c.resultado_le(1, 0, 1, success(vec![2]), &mut buffer);
    assert_eq!(c.consulta_cache(0, 5, 1, &mut out), None);
    assert_eq!(c.consulta_cache(1, 0, 1, &mut out), Some(1));
}

#[test]
fn block_larger_than_the_cache_is_not_kept() {
    let mut c = client();
    let mut buffer = vec![];
    c.resultado_le(0, 0, 1, success(vec![7]), &mut buffer);
    let big = MAX_CACHE_SIZE + 1;
    let mut into = vec![];
    assert_eq!(c.resultado_le(1, 0, big, success(vec![9; big]), &mut into), big as i32);
    assert_eq!(into.len(), big);
    let mut out = vec![];
    assert_eq!(c.consulta_cache(1, 0, 1, &mut out), None);
    assert_eq!(c.consulta_cache(0, 0, 1, &mut out), None);
}

#[test]
fn cached_copy_is_the_block_read_not_the_old_buffer() {
    let mut c = client();
    let mut first = vec![42, 43];
    assert_eq!(c.resultado_le(0, 8, 3, success(vec![1, 2, 3]), &mut first), 3);
    assert_eq!(first, vec![42, 43, 1, 2, 3]);
    let mut second = vec![];
    assert_eq!(c.consulta_cache(0, 8, 3, &mut second), Some(3));
    assert_eq!(second, vec![1, 2, 3]);
}

#[test]
fn read_past_the_largest_position_goes_to_the_server() {
    let mut c = client();
    let mut buffer = vec![];
    c.resultado_le(0, 0, 4, success(vec![1, 2, 3, 4]), &mut buffer);
    let mut out = vec![];
    assert_eq!(c.consulta_cache(0, u64::MAX, 2, &mut out), None);
    assert_eq!(c.resultado_le(0, u64::MAX, 2, None, &mut out), -1);
    assert!(out.is_empty());
}

#[test]
fn new_client_serves_nothing_from_its_cache() {
    let c = client();
    let mut out = vec![];
    assert_eq!(c.consulta_cache(3, 0, 0, &mut out), None);
    assert_eq!(c.consulta_cache(3, 10, 4, &mut out), None);
}
