use remote_file_system::file_manager::FileManager;

#[test]
fn new_table_is_empty() {
    let files = FileManager::new();
    assert!(files.precisa_abrir(0));
    assert!(files.nome(0).is_none());
}

#[test]
fn open_that_failed_leaves_the_table() {
    let mut files = FileManager::new();
    assert_eq!(files.abre(1, String::from("x.txt"), false), -1);
    assert!(files.nome(1).is_none());
    assert!(files.precisa_abrir(1));
}

#[test]
fn open_then_descriptor_refers_to_file() {
    let mut files = FileManager::new();
    assert_eq!(files.abre(1, String::from("x.txt"), true), 0);
    assert_eq!(files.nome(1), Some(String::from("x.txt")));
    assert!(!files.precisa_abrir(1));
    assert!(files.nome(2).is_none());
}

#[test]
fn reopen_keeps_first_name() {
    let mut files = FileManager::new();
    assert_eq!(files.abre(1, String::from("x.txt"), true), 0);
    assert_eq!(files.abre(1, String::from("y.txt"), false), 0);
    assert_eq!(files.nome(1), Some(String::from("x.txt")));
}

#[test]
fn read_codes() {
    let mut files = FileManager::new();
    let buffer = vec![0u8; 10];
    assert_eq!(files.le(1, &buffer, 10, true), -1);
    files.abre(1, String::from("x.txt"), true);
    assert_eq!(files.le(1, &buffer, 10, false), -1);
    assert_eq!(files.le(1, &buffer, 10, true), 10);
    assert_eq!(files.le(1, &buffer, 4, true), 10);
}

#[test]
fn write_codes() {
    let mut files = FileManager::new();
    let buffer = vec![7u8; 6];
    assert_eq!(files.escreve(3, &buffer, 6, true), -1);
    files.abre(3, String::from("z.txt"), true);
    assert_eq!(files.escreve(3, &buffer, 6, false), -1);
    assert_eq!(files.escreve(3, &buffer, 6, true), 6);
    assert_eq!(files.escreve(3, &buffer, 2, true), 6);
}

#[test]
fn close_closes_the_descriptor() {
    let mut files = FileManager::new();
    assert_eq!(files.fecha(5, true), -1);
    files.abre(5, String::from("w.txt"), true);
    files.abre(6, String::from("v.txt"), true);
    assert_eq!(files.fecha(5, false), -1);
    assert_eq!(files.nome(5), Some(String::from("w.txt")));
    assert_eq!(files.fecha(5, true), 0);
    assert!(files.nome(5).is_none());
    assert_eq!(files.fecha(5, true), -1);
    assert_eq!(files.le(5, &vec![0; 4], 4, true), -1);
    assert_eq!(files.escreve(5, &vec![0; 4], 4, true), -1);
    assert_eq!(files.nome(6), Some(String::from("v.txt")));
}
