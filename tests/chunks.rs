use tpea::disposable::IDisposable;
use tpea::error::TpeaError;
use tpea::poly::Share;
use tpea::strategy::{assemble_decoy, join_words, select_words, Chunk, ChunkType};

fn dictionary() -> Vec<Vec<u8>> {
    ["apple", "kiwi", "banana", "cherry"].iter().map(|w| w.as_bytes().to_vec()).collect()
}

#[test]
fn constructors_set_roles() {
    assert!(matches!(Chunk::of_header(&[1, 2]).get_type(), ChunkType::SliceContainingHeaderChunk));
    assert!(matches!(
        Chunk::of_header_content(&[3]).get_type(),
        ChunkType::SliceContainingHeaderContent
    ));
    let c = Chunk::new(ChunkType::SignificantSliceDerived2, &[4, 5, 6]);
    assert!(matches!(c.get_type(), ChunkType::SignificantSliceDerived2));
    assert_eq!(c.payload(), Ok(&[4u8, 5, 6][..]));
    assert!(!c.is_disposed());
}

#[test]
fn share_chunk_roles() {
    let share = Share { id: 3, typ: ChunkType::SignificantSliceDerived1, data: vec![7, 8] };
    let first = Chunk::of_share(&share, true);
    let later = Chunk::of_share(&share, false);
    assert!(matches!(first.get_type(), ChunkType::SignificantSliceDerived1));
    assert!(matches!(later.get_type(), ChunkType::SignificantSliceDerived2));
    assert_eq!(later.payload(), Ok(&[7u8, 8][..]));
}

#[test]
fn dispose_twice_then_payload_fails() {
    let mut c = Chunk::of_header_content(&[9, 9, 9]);
    assert_eq!(c.payload(), Ok(&[9u8, 9, 9][..]));
    c.dispose();
    assert!(c.is_disposed());
    assert_eq!(c.payload(), Err(TpeaError::UseAfterDispose));
    c.dispose();
    assert!(c.is_disposed());
    assert_eq!(c.payload(), Err(TpeaError::UseAfterDispose));
}

#[test]
fn dispose_insignificant_chunk() {
    let mut c = Chunk::new(ChunkType::InsignificantSliceOfData, &[1]);
    c.release();
    c.release();
    assert_eq!(c.payload(), Err(TpeaError::UseAfterDispose));
}

#[test]
fn role_tags() {
    assert_eq!(ChunkType::SliceContainingHeaderChunk.tag(), 0xFC);
    assert_eq!(ChunkType::SliceContainingHeaderContent.tag(), 0xED);
    assert_eq!(ChunkType::SignificantSliceDerived1.tag(), 0x79);
    assert_eq!(ChunkType::SignificantSliceDerived2.tag(), 0xA0);
    assert_eq!(ChunkType::InsignificantSliceOfData.tag(), 0x56);
    assert!(!ChunkType::InsignificantSliceOfData.is_sensitive());
    assert!(!ChunkType::SliceContainingHeaderChunk.is_sensitive());
    assert!(ChunkType::SignificantSliceDerived1.is_sensitive());
}

#[test]
fn join_words_exact() {
    let dict = dictionary();
    assert_eq!(join_words(&dict, &vec![1, 0, 1]), b"kiwi\napple\nkiwi".to_vec());
    assert_eq!(join_words(&dict, &vec![]), Vec::<u8>::new());
    assert_eq!(join_words(&dict, &vec![2]), b"banana".to_vec());
}

#[test]
fn assemble_decoy_layouts() {
    let text = vec![1u8, 2];
    let long_pad = vec![9u8, 8, 7, 6, 5, 4, 3];
    assert_eq!(assemble_decoy(&text, &long_pad), vec![9, 8, 7, 1, 2, 6, 5, 4, 3]);
    let short_pad = vec![9u8, 8, 7, 6, 5, 4];
    assert_eq!(assemble_decoy(&text, &short_pad), vec![9, 8, 7, 6, 5, 4, 1, 2]);
    assert_eq!(assemble_decoy(&text, &vec![]), vec![1, 2]);
}

#[test]
fn decoy_has_requested_length() {
    let dict = dictionary();
    for len in [5usize, 6, 7, 12, 40, 100, 1000] {
        let c = Chunk::of_insignificant(len, &dict).unwrap();
        assert!(matches!(c.get_type(), ChunkType::InsignificantSliceOfData));
        assert_eq!(c.payload().unwrap().len(), len);
    }
}

#[test]
fn decoy_of_zero_length() {
    let c = Chunk::of_insignificant(0, &dictionary()).unwrap();
    assert_eq!(c.payload().unwrap().len(), 0);
}

#[test]
fn decoy_shorter_than_any_word_fails() {
    assert!(matches!(
        Chunk::of_insignificant(4, &dictionary()),
        Err(TpeaError::UnsatisfiableLength)
    ));
}

#[test]
fn decoy_from_empty_dictionary_fails() {
    assert!(matches!(Chunk::of_insignificant(10, &vec![]), Err(TpeaError::UnsatisfiableLength)));
}

#[test]
fn decoy_text_comes_from_dictionary() {
    let dict = vec![b"abc".to_vec()];
    for _ in 0..20 {
        let c = Chunk::of_insignificant(4, &dict).unwrap();
        let p = c.payload().unwrap();
        assert_eq!(p.len(), 4);
        assert_eq!(&p[1..], b"abc");
    }
}

#[test]
fn select_words_longest_fitting_prefix() {
    let dict = dictionary();
    // "kiwi" = 4, "kiwi\napple" = 10, "kiwi\napple\nkiwi" = 15
    assert_eq!(select_words(12, &dict, &vec![1, 0, 1]), vec![1, 0]);
    assert_eq!(select_words(10, &dict, &vec![1, 0, 1]), vec![1, 0]);
    assert_eq!(select_words(9, &dict, &vec![1, 0, 1]), vec![1]);
    assert_eq!(select_words(15, &dict, &vec![1, 0, 1]), vec![1, 0, 1]);
    assert_eq!(select_words(3, &dict, &vec![1, 0]), Vec::<usize>::new());
    assert_eq!(select_words(3, &dict, &vec![]), Vec::<usize>::new());
}

#[test]
fn dispose_keeps_role() {
    let share = Share { id: 1, typ: ChunkType::SignificantSliceDerived1, data: vec![1, 2] };
    let mut c = Chunk::of_share(&share, false);
    c.dispose();
    c.dispose();
    assert!(matches!(c.get_type(), ChunkType::SignificantSliceDerived2));
}
