use remote_file_system::client::Client;
use remote_file_system::endereco::Endereco;
use remote_file_system::protocol::{
    Request, Response, ResponseType, StandardRequestFactory, BUFFER_SIZE,
};
use remote_file_system::server::{passo_servidor, PassoServidor, Server, Tarefa, TEMPO_OCIOSO_MS};

fn addr(porta: u16) -> Endereco {
    Endereco::ipv4(127, 0, 0, 1, porta)
}

fn open(fd: i32, nome: &str) -> Request {
    StandardRequestFactory.create_open_request(fd, String::from(nome))
}

fn read(fd: i32, pos: u64, t: usize) -> Request {
    StandardRequestFactory.create_read_request(fd, pos, t)
}

fn write(fd: i32, pos: u64, data: Vec<u8>) -> Request {
    let t = data.len();
    StandardRequestFactory.create_write_request(fd, pos, &data, t)
}

fn close(fd: i32) -> Request {
    StandardRequestFactory.create_close_request(fd)
}

fn is_refusal(r: &Response) -> bool {
    r.response_type == ResponseType::Erro && r.data == vec![255, 255, 255, 255]
}

#[test]
fn new_server_address() {
    let server = Server::new(addr(8080));
    assert_eq!(server.get_address(), addr(8080));
}

#[test]
fn opening_a_new_descriptor_needs_the_file() {
    let server = Server::new(addr(8080));
    match server.tarefa(&open(0, "file.txt"), addr(8081)) {
        Tarefa::Criar(nome) => assert_eq!(nome, "file.txt"),
        _ => panic!("expected the file to be created"),
    }
}

#[test]
fn open_that_failed_is_refused() {
    let mut server = Server::new(addr(8080));
    let r = server.abre(&open(0, "file.txt"), addr(8081), false);
    assert!(is_refusal(&r.expect("an answer")));
    assert!(matches!(server.tarefa(&open(0, "file.txt"), addr(8081)), Tarefa::Criar(_)));
    assert!(matches!(server.tarefa(&read(0, 0, 4), addr(8081)), Tarefa::Nenhuma));
}

#[test]
fn open_then_read_task_names_the_file() {
    let mut server = Server::new(addr(8080));
    assert!(server.abre(&open(0, "dados.bin"), addr(8081), true).is_none());
    assert!(matches!(server.tarefa(&open(0, "outro.bin"), addr(8081)), Tarefa::Nenhuma));
    match server.tarefa(&read(0, 0, 4), addr(8081)) {
        Tarefa::Ler(nome) => assert_eq!(nome, "dados.bin"),
        _ => panic!("expected a read"),
    }
    match server.tarefa(&write(0, 0, vec![1]), addr(8081)) {
        Tarefa::Escrever(nome) => assert_eq!(nome, "dados.bin"),
        _ => panic!("expected a write"),
    }
    match server.tarefa(&close(0), addr(8081)) {
        Tarefa::Fechar(nome) => assert_eq!(nome, "dados.bin"),
        _ => panic!("expected a close"),
    }
}

#[test]
fn only_watchers_may_use_a_descriptor() {
    let mut server = Server::new(addr(8080));
    server.abre(&open(0, "f"), addr(8081), true);
    assert!(server.has_open(&read(0, 0, 1), addr(8081)));
    assert!(!server.has_open(&read(0, 0, 1), addr(8082)));
    assert!(!server.has_open(&read(9, 0, 1), addr(8082)));
    assert!(matches!(server.tarefa(&read(0, 0, 1), addr(8082)), Tarefa::Nenhuma));
    assert!(server.abre(&open(0, "f"), addr(8082), false).is_none());
    assert!(server.has_open(&read(0, 0, 1), addr(8082)));
}

#[test]
fn read_answers() {
    let mut server = Server::new(addr(8080));
    server.abre(&open(0, "f"), addr(8081), true);
    let mut buffer = vec![0u8; BUFFER_SIZE];
    buffer[0] = 42;
    let r = server.le(&read(0, 0, 1), addr(8081), Some(buffer.clone()));
    assert_eq!(r.response_type, ResponseType::Sucesso);
    assert_eq!(r.data, buffer);
    assert!(is_refusal(&server.le(&read(0, 0, 1), addr(8081), None)));
    assert!(is_refusal(&server.le(&read(0, 0, 1), addr(8082), Some(buffer.clone()))));
    assert!(is_refusal(&server.le(&read(5, 0, 1), addr(8081), Some(buffer))));
}

#[test]
fn write_notifies_watchers_and_keeps_only_writer() {
    let mut server = Server::new(addr(8080));
    server.abre(&open(0, "f"), addr(8081), true);
    server.abre(&open(0, "f"), addr(8082), true);
    let escrita = server.escreve(&write(0, 16, vec![1, 2, 3]), addr(8082), true);
    assert_eq!(escrita.resposta.response_type, ResponseType::Sucesso);
    assert_eq!(escrita.resposta.data, vec![0, 0, 0, 3]);
    let aviso = escrita.aviso.expect("a notice");
    assert_eq!(aviso.response_type, ResponseType::AtualizaCache);
    assert_eq!(Response::parse_atualiza_cache(&aviso), (0, 16, 3));
    assert_eq!(escrita.destinatarios, vec![addr(8081)]);
    assert!(server.has_open(&read(0, 0, 1), addr(8082)));
    assert!(!server.has_open(&read(0, 0, 1), addr(8081)));
}

#[test]
fn write_status_is_buffer_length_when_size_differs() {
    let mut server = Server::new(addr(8080));
    server.abre(&open(0, "f"), addr(8081), true);
    let data = vec![9u8; 10];
    let request = StandardRequestFactory.create_write_request(0, 0, &data, 4);
    let escrita = server.escreve(&request, addr(8081), true);
    assert_eq!(escrita.resposta.data, vec![0, 0, 0, 10]);
    assert_eq!(Response::parse_atualiza_cache(&escrita.aviso.expect("a notice")), (0, 0, 4));
}

#[test]
fn failed_or_refused_write_changes_nothing() {
    let mut server = Server::new(addr(8080));
    server.abre(&open(0, "f"), addr(8081), true);
    server.abre(&open(0, "f"), addr(8082), true);
    let escrita = server.escreve(&write(0, 0, vec![1]), addr(8081), false);
    assert!(is_refusal(&escrita.resposta));
    assert!(escrita.aviso.is_none());
    assert!(escrita.destinatarios.is_empty());
    assert!(server.has_open(&read(0, 0, 1), addr(8082)));
    let escrita = server.escreve(&write(0, 0, vec![1]), addr(8083), true);
    assert!(is_refusal(&escrita.resposta));
    let escrita = server.escreve(&write(7, 0, vec![1]), addr(8081), true);
    assert!(is_refusal(&escrita.resposta));
}

#[test]
fn fresh_server_refuses_everyone() {
    let server = Server::new(addr(8080));
    assert!(!server.has_open(&read(0, 0, 1), addr(8081)));
    assert!(is_refusal(&server.le(&read(0, 0, 1), addr(8081), None)));
}

#[test]
fn close_revokes_access_and_closes_the_descriptor() {
    let mut server = Server::new(addr(8080));
    server.abre(&open(0, "f"), addr(8081), true);
    server.abre(&open(0, "f"), addr(8082), true);
    assert!(server.fecha(&close(0), addr(8081), true).is_none());
    assert!(!server.has_open(&read(0, 0, 1), addr(8081)));
    assert!(server.has_open(&read(0, 0, 1), addr(8082)));
    assert!(matches!(server.tarefa(&read(0, 0, 1), addr(8082)), Tarefa::Nenhuma));
    assert!(is_refusal(&server.le(&read(0, 0, 1), addr(8082), None)));
    assert!(is_refusal(&server.fecha(&close(0), addr(8082), true).expect("an answer")));
    assert!(is_refusal(&server.fecha(&close(0), addr(8081), true).expect("an answer")));
    assert!(matches!(server.tarefa(&open(0, "g"), addr(8082)), Tarefa::Criar(_)));
    assert!(server.abre(&open(0, "g"), addr(8082), true).is_none());
    match server.tarefa(&read(0, 0, 1), addr(8082)) {
        Tarefa::Ler(nome) => assert_eq!(nome, "g"),
        _ => panic!("expected a read"),
    }
}

#[test]
fn close_refused_or_failed() {
    let mut server = Server::new(addr(8080));
    assert!(is_refusal(&server.fecha(&close(3), addr(8081), true).expect("an answer")));
    server.abre(&open(3, "f"), addr(8081), true);
    assert!(is_refusal(&server.fecha(&close(3), addr(8081), false).expect("an answer")));
    assert!(server.has_open(&read(3, 0, 1), addr(8081)));
    assert!(is_refusal(&server.fecha(&close(3), addr(8082), true).expect("an answer")));
}

#[test]
fn second_write_reaches_a_dropped_watcher_only_through_its_empty_cache() {
    let mut server = Server::new(addr(8080));
    let mut leitor = Client::new(addr(8080), addr(8081));
    server.abre(&open(0, "f"), addr(8081), true);
    server.abre(&open(0, "f"), addr(8082), true);
    let mut buffer = vec![];
    leitor.resultado_le(0, 100, 4, Some(server.le(&read(0, 100, 4), addr(8081), Some(vec![7u8; BUFFER_SIZE]))), &mut buffer);
    let primeira = server.escreve(&write(0, 0, vec![1, 1]), addr(8082), true);
    assert_eq!(primeira.destinatarios, vec![addr(8081)]);
    assert!(leitor.recebe_aviso(&primeira.aviso.expect("a notice")));
    let mut out = vec![];
    assert_eq!(leitor.consulta_cache(0, 100, 4, &mut out), None);
    let segunda = server.escreve(&write(0, 100, vec![2, 2]), addr(8082), true);
    assert!(segunda.destinatarios.is_empty());
    assert_eq!(leitor.consulta_cache(0, 100, 4, &mut out), None);
    assert!(is_refusal(&server.le(&read(0, 100, 4), addr(8081), Some(vec![0u8; BUFFER_SIZE]))));
}

#[test]
fn writer_reads_its_own_write_from_the_server() {
    let mut server = Server::new(addr(8080));
    let mut escritor = Client::new(addr(8080), addr(8082));
    server.abre(&open(0, "f"), addr(8082), true);
    let mut buffer = vec![];
    escritor.resultado_le(0, 0, 4, Some(server.le(&read(0, 0, 4), addr(8082), Some(vec![7u8; BUFFER_SIZE]))), &mut buffer);
    let escrita = server.escreve(&write(0, 1, vec![1, 1]), addr(8082), true);
    assert!(escrita.destinatarios.is_empty());
    let resposta = Some(escrita.resposta);
    assert_eq!(escritor.resultado_escreve(0, 1, 2, &resposta), 0);
    let mut out = vec![];
    assert_eq!(escritor.consulta_cache(0, 0, 4, &mut out), None);
}

#[test]
fn write_by_one_client_invalidates_another_clients_cache() {
    let mut server = Server::new(addr(8080));
    let mut leitor = Client::new(addr(8080), addr(8081));
    server.abre(&open(0, "f"), addr(8081), true);
    server.abre(&open(0, "f"), addr(8082), true);
    let mut buffer = vec![];
    leitor.resultado_le(0, 0, 4, Some(server.le(&read(0, 0, 4), addr(8081), Some(vec![7u8; BUFFER_SIZE]))), &mut buffer);
    assert_eq!(buffer, vec![7, 7, 7, 7]);
    let mut out = vec![];
    assert_eq!(leitor.consulta_cache(0, 0, 4, &mut out), Some(4));
    let escrita = server.escreve(&write(0, 2, vec![1, 1]), addr(8082), true);
    assert!(escrita.destinatarios.contains(&addr(8081)));
    let frame = Response::serialize(&escrita.aviso.expect("a notice"));
    assert!(leitor.recebe_aviso(&Response::desserialize(&frame)));
    assert_eq!(leitor.consulta_cache(0, 0, 4, &mut out), None);
    assert_eq!(out, vec![7, 7, 7, 7]);
}

#[test]
fn file_name_is_decoded_from_utf8() {
    let server = Server::new(addr(8080));
    match server.tarefa(&open(1, "ficheiro-ç.txt"), addr(8081)) {
        Tarefa::Criar(nome) => {
            assert_eq!(nome, "ficheiro-ç.txt");
            assert_eq!(nome.chars().count(), 14);
        }
        _ => panic!("expected the file to be created"),
    }
}

#[test]
fn server_loop_steps() {
    assert_eq!(passo_servidor(true, 5000), PassoServidor::Atender);
    assert_eq!(passo_servidor(false, 0), PassoServidor::Esperar);
    assert_eq!(passo_servidor(false, TEMPO_OCIOSO_MS - 1), PassoServidor::Esperar);
    assert_eq!(passo_servidor(false, TEMPO_OCIOSO_MS), PassoServidor::Parar);
}
