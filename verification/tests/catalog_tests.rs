use gotta_fill_em_all::catalog::{
    decode_entries, decode_page, decode_song, decode_songs, page_url, read_next_page, SchemaError,
    PAGE_SIZE,
};

fn entry(id: &str) -> String {
    format!(
        "{{\"id\":{},\"api_path\":\"/songs/1\",\"full_title\":\"T by A\",\
         \"primary_artist\":{{\"name\":\"A\",\"id\":4}},\"title\":\"T\",\
         \"url\":\"https://example.org/1\",\"extra\":[1,2]}}",
        id
    )
}

#[test]
fn page_size_is_fifty() {
    assert_eq!(PAGE_SIZE, 50);
}

#[test]
fn page_url_of_first_page() {
    assert_eq!(
        page_url(1, 1),
        "https://api.genius.com/artists/1/songs?per_page=50&page=1"
    );
}

#[test]
fn page_url_with_longer_numbers() {
    assert_eq!(
        page_url(16775, 12),
        "https://api.genius.com/artists/16775/songs?per_page=50&page=12"
    );
    assert_eq!(
        page_url(0, 0),
        "https://api.genius.com/artists/0/songs?per_page=50&page=0"
    );
}

#[test]
fn next_page_absent_ends_the_walk() {
    assert_eq!(read_next_page(None), Ok(None));
}

#[test]
fn next_page_null_ends_the_walk() {
    assert_eq!(read_next_page(Some("null")), Ok(None));
}

#[test]
fn next_page_number_continues_the_walk() {
    assert_eq!(read_next_page(Some("2")), Ok(Some(2)));
    assert_eq!(read_next_page(Some("0")), Ok(Some(0)));
    assert_eq!(read_next_page(Some("18446744073709551615")), Ok(Some(u64::MAX)));
}

#[test]
fn next_page_of_other_kind_is_malformed() {
    for token in ["\"2\"", "2.5", "-1", "true", "[]", "{}", "", "Null", "18446744073709551616"] {
        assert_eq!(read_next_page(Some(token)), Err(SchemaError::MalformedNextPage));
    }
}

#[test]
fn decode_song_reads_all_fields() {
    let song = decode_song(&entry("10")).unwrap();
    assert_eq!(song.id, 10);
    assert_eq!(song.api_path, "/songs/1");
    assert_eq!(song.full_title, "T by A");
    assert_eq!(song.primary_artist_name, "A");
    assert_eq!(song.title, "T");
    assert_eq!(song.url, "https://example.org/1");
}

#[test]
fn decode_song_unescapes_strings() {
    let text = "{\"id\":3,\"api_path\":\"/a\\/b\",\"full_title\":\"say \\\"hi\\\"\",\
                \"primary_artist\":{\"name\":\"Beyonc\\u00e9\"},\"title\":\"a,b\\nc\",\"url\":\"u\"}";
    let song = decode_song(text).unwrap();
    assert_eq!(song.api_path, "/a/b");
    assert_eq!(song.full_title, "say \"hi\"");
    assert_eq!(song.primary_artist_name, "Beyoncé");
    assert_eq!(song.title, "a,b\nc");
}

#[test]
fn decode_song_refuses_missing_field() {
    for field in ["id", "api_path", "full_title", "primary_artist", "title", "url"] {
        let text = entry("10").replace(&format!("\"{}\":", field), "\"other\":");
        assert!(decode_song(&text).is_none());
    }
}

#[test]
fn decode_song_refuses_artist_without_name() {
    let text = entry("10").replace("\"name\":\"A\"", "\"alias\":\"A\"");
    assert!(decode_song(&text).is_none());
    let text = entry("10").replace("{\"name\":\"A\",\"id\":4}", "\"A\"");
    assert!(decode_song(&text).is_none());
}

#[test]
fn decode_song_refuses_fields_of_wrong_kind() {
    assert!(decode_song(&entry("\"10\"")).is_none());
    assert!(decode_song(&entry("-10")).is_none());
    assert!(decode_song(&entry("10.5")).is_none());
    assert!(decode_song(&entry("null")).is_none());
    let text = entry("10").replace("\"title\":\"T\"", "\"title\":7");
    assert!(decode_song(&text).is_none());
}

#[test]
fn decode_song_refuses_what_is_no_object() {
    assert!(decode_song("[]").is_none());
    assert!(decode_song("10").is_none());
    assert!(decode_song("").is_none());
    assert!(decode_song("{\"id\":10").is_none());
}

#[test]
fn decode_entries_keeps_the_order() {
    let songs = decode_entries(&vec![entry("3"), entry("1"), entry("2")]).unwrap();
    let ids: Vec<usize> = songs.iter().map(|song| song.id).collect();
    assert_eq!(ids, vec![3, 1, 2]);
}

#[test]
fn decode_entries_names_the_first_malformed_entry() {
    let entries = vec![entry("3"), String::from("{}"), entry("2"), String::from("7")];
    assert_eq!(
        decode_entries(&entries).unwrap_err(),
        SchemaError::MalformedSong { index: 1 }
    );
}

#[test]
fn decode_songs_of_empty_list() {
    assert!(decode_songs("[]").unwrap().is_empty());
}

#[test]
fn decode_songs_refuses_what_is_no_list() {
    assert_eq!(decode_songs("{}").unwrap_err(), SchemaError::MalformedSongs);
    assert_eq!(decode_songs("null").unwrap_err(), SchemaError::MalformedSongs);
    assert_eq!(decode_songs("[1,").unwrap_err(), SchemaError::MalformedSongs);
}

#[test]
fn decode_songs_refuses_malformed_song() {
    let list = format!("[{},{},{{\"id\":1}}]", entry("1"), entry("2"));
    assert_eq!(
        decode_songs(&list).unwrap_err(),
        SchemaError::MalformedSong { index: 2 }
    );
}

#[test]
fn decode_page_with_next_page() {
    let body = format!(
        "{{\"meta\":{{\"status\":200}},\"response\":{{\"songs\":[{},{}],\"next_page\":2}}}}",
        entry("10"),
        entry("11")
    );
    let page = decode_page(&body).unwrap();
    assert_eq!(page.songs.len(), 2);
    assert_eq!(page.songs[0].id, 10);
    assert_eq!(page.songs[1].id, 11);
    assert_eq!(page.next_page, Some(2));
}

#[test]
fn decode_page_with_null_token() {
    let body = format!("{{\"response\":{{\"songs\":[{}],\"next_page\":null}}}}", entry("10"));
    let page = decode_page(&body).unwrap();
    assert_eq!(page.songs.len(), 1);
    assert_eq!(page.next_page, None);
}

#[test]
fn decode_page_without_token() {
    let body = "{\"response\":{\"songs\":[]}}";
    let page = decode_page(body).unwrap();
    assert!(page.songs.is_empty());
    assert_eq!(page.next_page, None);
}

#[test]
fn decode_page_with_empty_page_and_token_goes_on() {
    let body = "{\"response\":{\"songs\":[],\"next_page\":3}}";
    let page = decode_page(body).unwrap();
    assert!(page.songs.is_empty());
    assert_eq!(page.next_page, Some(3));
}

#[test]
fn decode_page_without_response() {
    assert_eq!(decode_page("{\"meta\":{}}").unwrap_err(), SchemaError::MissingResponse);
    assert_eq!(decode_page("[]").unwrap_err(), SchemaError::MissingResponse);
    assert_eq!(decode_page("not json").unwrap_err(), SchemaError::MissingResponse);
    assert_eq!(decode_page("").unwrap_err(), SchemaError::MissingResponse);
}

#[test]
fn decode_page_without_songs() {
    assert_eq!(
        decode_page("{\"response\":{\"next_page\":2}}").unwrap_err(),
        SchemaError::MissingSongs
    );
    assert_eq!(decode_page("{\"response\":null}").unwrap_err(), SchemaError::MissingSongs);
}

#[test]
fn decode_page_with_malformed_songs() {
    assert_eq!(
        decode_page("{\"response\":{\"songs\":{},\"next_page\":2}}").unwrap_err(),
        SchemaError::MalformedSongs
    );
    assert_eq!(
        decode_page("{\"response\":{\"songs\":[{\"id\":1}],\"next_page\":2}}").unwrap_err(),
        SchemaError::MalformedSong { index: 0 }
    );
}

#[test]
fn decode_page_with_malformed_token() {
    assert_eq!(
        decode_page("{\"response\":{\"songs\":[],\"next_page\":\"2\"}}").unwrap_err(),
        SchemaError::MalformedNextPage
    );
    assert_eq!(
        decode_page("{\"response\":{\"songs\":[],\"next_page\":1.5}}").unwrap_err(),
        SchemaError::MalformedNextPage
    );
}

#[test]
fn decode_page_reports_songs_before_token() {
    assert_eq!(
        decode_page("{\"response\":{\"songs\":7,\"next_page\":\"2\"}}").unwrap_err(),
        SchemaError::MalformedSongs
    );
}
