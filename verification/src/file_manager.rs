//! The server's table of open files: which file name each descriptor
//! refers to, and the status codes of the file operations.
//!
//! Opening, reading, writing and closing the file itself is done by the
//! caller, which hands the outcome in; the table decides what it means.
use std::collections::HashMap;
use vstd::prelude::*;

verus! {

broadcast use vstd::std_specs::hash::group_hash_axioms;

/// Maps descriptors to file names.
pub struct FileManager {
    file_table: HashMap<u32, String>,
}

/// The status code of a read or a write that ran: the size asked for when
/// the buffer has exactly that size, the buffer's length otherwise.
pub open spec fn transfer_code(buffer_len: usize, tamanho: usize) -> i32 {
    if buffer_len == tamanho {
        tamanho as i32
    } else {
        buffer_len as i32
    }
}

impl View for FileManager {
    type V = Map<u32, Seq<char>>;

    /// Each open descriptor with the name of its file.
    closed spec fn view(&self) -> Map<u32, Seq<char>> {
        self.file_table@.map_values(|s: String| s@)
    }
}

impl FileManager {
    /// An empty table.
    pub fn new() -> (r: Self)
        ensures
            r@ == Map::<u32, Seq<char>>::empty(),
    {
        let r = Self { file_table: HashMap::new() };
        assert(r@ =~= Map::<u32, Seq<char>>::empty());
        r
    }

    /// Whether opening `descritor_arquivo` needs the file itself to be
    /// opened (or created): only when the descriptor is not in the table.
    pub fn precisa_abrir(&self, descritor_arquivo: u32) -> (r: bool)
        ensures
            r == !self@.contains_key(descritor_arquivo),
    {
        !self.file_table.contains_key(&descritor_arquivo)
    }

    /// Opens `nome_arquivo` under `descritor_arquivo`. A descriptor already
    /// in the table stays as it is and the call succeeds; otherwise
    /// `criado` says whether the file could be opened or created, and on
    /// success the descriptor refers to it from now on. Returns 0 on
    /// success, -1 on error.
    pub fn abre(&mut self, descritor_arquivo: u32, nome_arquivo: String, criado: bool) -> (r: i32)
        ensures
            old(self)@.contains_key(descritor_arquivo) ==> r == 0 && final(self)@ == old(self)@,
            !old(self)@.contains_key(descritor_arquivo) && criado ==> r == 0 && final(self)@
                == old(self)@.insert(descritor_arquivo, nome_arquivo@),
            !old(self)@.contains_key(descritor_arquivo) && !criado ==> r == -1 && final(self)@
                == old(self)@,
    {
        if self.file_table.contains_key(&descritor_arquivo) {
            return 0;
        }
        if !criado {
            return -1;
        }
        self.file_table.insert(descritor_arquivo, nome_arquivo);
        assert(self@ =~= old(self)@.insert(descritor_arquivo, nome_arquivo@));
        0
    }

    /// The name of the file that `descritor_arquivo` refers to.
    pub fn nome(&self, descritor_arquivo: u32) -> (r: Option<String>)
        ensures
            match r {
                Some(s) => self@.contains_key(descritor_arquivo) && s@ == self@[descritor_arquivo],
                None => !self@.contains_key(descritor_arquivo),
            },
    {
        match self.file_table.get(&descritor_arquivo) {
            Some(s) => Some(s.clone()),
            None => None,
        }
    }

    /// The status of a read of `tamanho` bytes into `buffer`: -1 when the
    /// descriptor is not open or the read failed (`lido` is false),
    /// otherwise the number of bytes reported.
    pub fn le(&self, descritor_arquivo: u32, buffer: &Vec<u8>, tamanho: usize, lido: bool) -> (r:
        i32)
        ensures
            r == if self@.contains_key(descritor_arquivo) && lido {
                transfer_code(buffer.len(), tamanho)
            } else {
                -1i32
            },
    {
        if !self.file_table.contains_key(&descritor_arquivo) || !lido {
            return -1;
        }
        if buffer.len() == tamanho {
            tamanho as i32
        } else {
            buffer.len() as i32
        }
    }

    /// The status of a write of `tamanho` bytes of `buffer`: -1 when the
    /// descriptor is not open or the write failed (`escrito` is false),
    /// otherwise the number of bytes reported.
    pub fn escreve(&self, descritor_arquivo: u32, buffer: &Vec<u8>, tamanho: usize, escrito: bool) -> (r:
        i32)
        ensures
            r == if self@.contains_key(descritor_arquivo) && escrito {
                transfer_code(buffer.len(), tamanho)
            } else {
                -1i32
            },
    {
        if !self.file_table.contains_key(&descritor_arquivo) || !escrito {
            return -1;
        }
        if buffer.len() == tamanho {
            tamanho as i32
        } else {
            buffer.len() as i32
        }
    }

    /// Closes `descritor_arquivo`: when it is open and its file could be
    /// reached (`fechado`), it leaves the table and 0 is returned; otherwise
    /// -1 is returned and the table stays as it is. Other descriptors keep
    /// their files.
    pub fn fecha(&mut self, descritor_arquivo: u32, fechado: bool) -> (r: i32)
        ensures
            old(self)@.contains_key(descritor_arquivo) && fechado ==> r == 0 && final(self)@
                == old(self)@.remove(descritor_arquivo),
            !(old(self)@.contains_key(descritor_arquivo) && fechado) ==> r == -1 && final(self)@
                == old(self)@,
    {
        if !self.file_table.contains_key(&descritor_arquivo) || !fechado {
            return -1;
        }
        self.file_table.remove(&descritor_arquivo);
        assert(self@ =~= old(self)@.remove(descritor_arquivo));
        0
    }
}

} // verus!
