use backend::provider::ProviderError;
use backend::sse::SseDecoder;

const HELLO: &str = "data: {\"choices\":[{\"delta\":{\"content\":\"hello\"}}]}\n";

#[test]
fn decoder_emits_content_of_complete_lines_in_order() {
    let mut decoder = SseDecoder::new();
    let text = format!(
        "{HELLO}: comment\n\ndata: {{\"choices\":[{{\"delta\":{{\"content\":\" world\"}}}}]}}\ndata: [DONE]\n"
    );
    let batch = decoder.push_chunk(text.as_bytes());
    assert_eq!(batch.contents, vec!["hello".to_owned(), " world".to_owned()]);
    assert_eq!(batch.error, None);
    assert!(batch.done);
    assert!(decoder.done());
    let end = decoder.finish();
    assert!(end.contents.is_empty());
    assert_eq!(end.error, None);
}

#[test]
fn decoder_joins_lines_split_across_chunks() {
    let mut decoder = SseDecoder::new();
    let (a, b) = HELLO.as_bytes().split_at(17);
    let first = decoder.push_chunk(a);
    assert!(first.contents.is_empty());
    assert_eq!(first.error, None);
    assert!(!first.done);
    let second = decoder.push_chunk(b);
    assert_eq!(second.contents, vec!["hello".to_owned()]);
    let third = decoder.push_chunk(b"data: [DO");
    assert!(third.contents.is_empty());
    let fourth = decoder.push_chunk(b"NE]\n");
    assert!(fourth.done);
}

#[test]
fn decoder_stops_at_done_and_ignores_the_rest() {
    let mut decoder = SseDecoder::new();
    let text = format!("data: [DONE]\n{HELLO}");
    let batch = decoder.push_chunk(text.as_bytes());
    assert!(batch.contents.is_empty());
    assert!(batch.done);
}

#[test]
fn decoder_reports_a_stream_that_ends_before_done() {
    let mut decoder = SseDecoder::new();
    decoder.push_chunk(HELLO.as_bytes());
    let end = decoder.finish();
    assert!(end.contents.is_empty());
    assert_eq!(
        end.error,
        Some(ProviderError::Interrupted("stream ended before [DONE]".to_owned()))
    );
    assert!(!end.done);
}

#[test]
fn decoder_reads_a_last_line_without_newline() {
    let mut decoder = SseDecoder::new();
    decoder.push_chunk(b"data: [DONE]");
    let end = decoder.finish();
    assert_eq!(end.error, None);
    assert!(end.done);

    let mut decoder = SseDecoder::new();
    decoder.push_chunk(HELLO.trim_end().as_bytes());
    let end = decoder.finish();
    assert_eq!(end.contents, vec!["hello".to_owned()]);
    assert_eq!(
        end.error,
        Some(ProviderError::Interrupted("stream ended before [DONE]".to_owned()))
    );
}

#[test]
fn decoder_fails_on_invalid_utf8_and_on_error_chunks() {
    let mut decoder = SseDecoder::new();
    let batch = decoder.push_chunk(&[0xff, b'\n']);
    assert!(matches!(batch.error, Some(ProviderError::InvalidResponse(_))));

    let mut decoder = SseDecoder::new();
    let text = format!("{HELLO}data: {{\"error\":{{\"code\":429}}}}\n{HELLO}");
    let batch = decoder.push_chunk(text.as_bytes());
    assert_eq!(batch.contents, vec!["hello".to_owned()]);
    assert_eq!(batch.error, Some(ProviderError::RateLimited));
    assert!(!batch.done);
}

#[test]
fn chunking_does_not_change_what_is_read() {
    let text = format!(
        "{HELLO}{HELLO}data: {{\"choices\":[{{\"delta\":{{\"content\":\"!\"}}}}]}}\ndata: [DONE]\n"
    );
    let bytes = text.as_bytes();
    let mut whole = SseDecoder::new();
    let expected = whole.push_chunk(bytes);
    for size in 1..bytes.len() {
        let mut decoder = SseDecoder::new();
        let mut contents = Vec::new();
        let mut done = false;
        for chunk in bytes.chunks(size) {
            if done {
                break;
            }
            let batch = decoder.push_chunk(chunk);
            contents.extend(batch.contents);
            done = batch.done;
        }
        assert_eq!(contents, expected.contents, "chunk size {size}");
        assert!(done);
    }
}

#[test]
fn chunking_does_not_change_an_error_or_the_end_of_the_stream() {
    let texts = [
        "data: {\"choices\":[{\"delta\":{\"content\":\"é\"}}]}\ndata: {\"error\":{\"code\":429}}\ndata: [DONE]\n",
        "data: {\"choices\":[{\"delta\":{\"content\":\"ü\"}}]}\ndata: {\"choices\":[{\"delta\":{\"content\":\"x\"}}]}",
        ": comment\ndata: {\"choices\":[{\"delta\":{\"content\":\"a\"}}]}\n\n  \n",
    ];
    for text in texts {
        let bytes = text.as_bytes();
        let run = |size: usize| {
            let mut decoder = SseDecoder::new();
            let mut contents = Vec::new();
            for chunk in bytes.chunks(size) {
                let batch = decoder.push_chunk(chunk);
                contents.extend(batch.contents);
                if batch.error.is_some() || batch.done {
                    return (contents, batch.error);
                }
            }
            let last = decoder.finish();
            contents.extend(last.contents);
            (contents, last.error)
        };
        let expected = run(bytes.len());
        for size in 1..bytes.len() {
            assert_eq!(run(size), expected, "chunk size {size}");
        }
    }
}
