use coffee_chat::audio::{
    AudioChunk, AudioLayer, FileSource, PassthroughLayer, SwapLRLayer, SAMPLES_PER_CHUNK,
};
use coffee_chat::table::Table;
use coffee_chat::ui::{start_ui, ChatEvent, ChatMessage, NetUIMessage};

#[test]
fn a_table_keeps_rows_in_order_of_arrival() {
    let mut table: Table<&str> = Table::new();
    assert_eq!(table.len(), 0);
    assert!(table.insert(5, "five").is_none());
    assert!(table.insert(2, "two").is_none());
    assert!(table.insert(9, "nine").is_none());
    assert_eq!(table.len(), 3);
    assert_eq!((table.key_at(0), table.key_at(1), table.key_at(2)), (5, 2, 9));
    assert_eq!(*table.value_at(1), "two");
    assert_eq!(table.get(9), Some(&"nine"));
    assert_eq!(table.get(3), None);
    assert!(table.contains_key(2));
    assert!(!table.contains_key(0));
}

#[test]
fn a_table_takes_no_handle_twice() {
    let mut table: Table<u8> = Table::new();
    assert!(table.insert(1, 10).is_none());
    assert_eq!(table.insert(1, 11), Some(11));
    assert_eq!(table.len(), 1);
    assert_eq!(table.get(1), Some(&10));
}

#[test]
fn a_table_removes_one_row_and_keeps_the_order_of_the_rest() {
    let mut table: Table<u8> = Table::new();
    for k in 0..5u8 {
        assert!(table.insert(k as u64, k * 10).is_none());
    }
    assert_eq!(table.remove(2), Some(20));
    assert_eq!(table.remove(2), None);
    assert_eq!(table.remove(7), None);
    assert_eq!(table.len(), 4);
    assert_eq!(
        (table.key_at(0), table.key_at(1), table.key_at(2), table.key_at(3)),
        (0, 1, 3, 4)
    );
    assert_eq!(table.remove(4), Some(40));
    assert_eq!(table.remove(0), Some(0));
    assert_eq!((table.key_at(0), table.key_at(1)), (1, 3));
}

#[test]
fn a_new_chunk_is_empty_mono() {
    let chunk = AudioChunk::new();
    assert_eq!(chunk.channel_count(), 1);
    assert_eq!(chunk.sample_rate(), 44_100);
    assert!(chunk.buffer().is_empty());
}

#[test]
fn a_chunk_holds_what_it_was_given() {
    let mut chunk = AudioChunk::new_from_data(2, 48_000, vec![1, -2, 3]);
    assert_eq!(chunk.channel_count(), 2);
    assert_eq!(chunk.sample_rate(), 48_000);
    assert_eq!(chunk.buffer(), &vec![1, -2, 3]);
    chunk.buffer_mut().push(4);
    chunk.buffer_mut()[0] = 100;
    assert_eq!(chunk.buffer(), &vec![100, -2, 3, 4]);
    assert_eq!(chunk.channel_count(), 2);
}

#[test]
fn passthrough_changes_nothing() {
    let mut chunk = AudioChunk::new_from_data(2, 8_000, vec![1, 2, 3, 4]);
    PassthroughLayer {}.modulate_chunk(&mut chunk);
    assert_eq!(chunk.buffer(), &vec![1, 2, 3, 4]);
}

#[test]
fn swap_exchanges_every_complete_pair() {
    let mut chunk = AudioChunk::new_from_data(2, 8_000, vec![1, 2, 3, 4, 5, 6]);
    SwapLRLayer {}.modulate_chunk(&mut chunk);
    assert_eq!(chunk.buffer(), &vec![2, 1, 4, 3, 6, 5]);
    assert_eq!(chunk.sample_rate(), 8_000);
    let mut odd = AudioChunk::new_from_data(2, 8_000, vec![1, 2, 3]);
    SwapLRLayer {}.modulate_chunk(&mut odd);
    assert_eq!(odd.buffer(), &vec![2, 1, 3]);
    let mut one = AudioChunk::new_from_data(1, 8_000, vec![7]);
    SwapLRLayer {}.modulate_chunk(&mut one);
    assert_eq!(one.buffer(), &vec![7]);
    let mut none = AudioChunk::new();
    SwapLRLayer {}.modulate_chunk(&mut none);
    assert!(none.buffer().is_empty());
}

#[test]
fn swapping_twice_gives_the_chunk_back() {
    let samples: Vec<i16> = (0..101).collect();
    let mut chunk = AudioChunk::new_from_data(2, 8_000, samples.clone());
    SwapLRLayer {}.modulate_chunk(&mut chunk);
    assert_ne!(chunk.buffer(), &samples);
    SwapLRLayer {}.modulate_chunk(&mut chunk);
    assert_eq!(chunk.buffer(), &samples);
}

#[test]
fn a_source_without_a_file_plays_an_empty_chunk() {
    let mut source = FileSource::new(None);
    assert_eq!(source.channel_count(), 1);
    assert_eq!(source.sample_rate(), 44_100);
    assert_eq!(source.get_data(), (0, 0, false));
    assert_eq!(source.get_data(), (0, 0, false));
}

#[test]
fn a_source_hands_its_samples_out_in_chunks() {
    let total = 2 * SAMPLES_PER_CHUNK + 5;
    let chunk = AudioChunk::new_from_data(2, 22_050, vec![0i16; total]);
    let mut source = FileSource::new(Some(chunk));
    assert_eq!(source.channel_count(), 2);
    assert_eq!(source.sample_rate(), 22_050);
    assert_eq!(source.data().buffer().len(), total);
    assert_eq!(source.get_data(), (0, 20_000, true));
    source.seek(0);
    assert_eq!(source.get_data(), (20_000, 40_000, true));
    assert_eq!(source.get_data(), (40_000, 40_005, false));
    assert_eq!(source.get_data(), (40_005, 40_005, false));
}

#[test]
fn a_source_of_exactly_one_chunk_says_that_more_follows() {
    let chunk = AudioChunk::new_from_data(1, 44_100, vec![0i16; SAMPLES_PER_CHUNK]);
    let mut source = FileSource::new(Some(chunk));
    assert_eq!(source.get_data(), (0, 20_000, true));
    assert_eq!(source.get_data(), (20_000, 20_000, false));
}

#[test]
fn front_end_messages_carry_their_text() {
    start_ui();
    match ChatMessage::Event(ChatEvent::Text(String::from("hi")).clone()) {
        ChatMessage::Event(ChatEvent::Text(text)) => assert_eq!(text, "hi"),
        other => panic!("{:?}", other),
    }
    match NetUIMessage::PortNumberUpdated(String::from("8080")) {
        NetUIMessage::PortNumberUpdated(text) => assert_eq!(text, "8080"),
        other => panic!("{:?}", other),
    }
}
