use lumen::aggregate::{aggregate, StreamAggregator};
use lumen::command::{prepare_conversation, prompt_kind_of, CommandIntent};
use lumen::git_entity::GitEntity;
use lumen::error::LumenError;
use lumen::provider::ProviderVariant;
use lumen::stream::StreamParser;

/// Feeds the whole body in one chunk and returns the fragments, the done
/// flag and the error of that single feed.
fn feed_once(v: ProviderVariant, body: &str) -> (Vec<String>, bool, Option<LumenError>) {
    let mut p = StreamParser::new(v);
    let r = p.parse_stream_chunk(body);
    (r.fragments, r.done, r.error)
}

#[test]
fn openai_stream_yields_fragments_in_order() {
    let body = "data: {\"choices\":[{\"delta\":{\"content\":\"Hel\"}}]}\n\
                \n\
                data: {\"choices\":[{\"delta\":{\"content\":\"lo\"}}]}\n\
                data: [DONE]\n";
    let (frags, done, err) = feed_once(ProviderVariant::Openai, body);
    assert!(err.is_none());
    assert!(done);
    assert_eq!(frags, vec!["Hel".to_string(), "lo".to_string()]);
    assert_eq!(aggregate(&frags), "Hello");
}

#[test]
fn claude_stream_uses_text_key_and_message_stop() {
    let body = "event: content_block_delta\n\
                data: {\"type\":\"content_block_delta\",\"delta\":{\"text\":\"Hi \"}}\n\
                data: {\"type\":\"content_block_delta\",\"delta\":{\"text\":\"there\"}}\n\
                data: {\"type\":\"message_stop\"}\n";
    let (frags, done, err) = feed_once(ProviderVariant::Claude, body);
    assert!(err.is_none());
    assert!(done);
    assert_eq!(aggregate(&frags), "Hi there");
}

#[test]
fn ollama_stream_is_line_delimited_json() {
    let body = "{\"message\":{\"content\":\"one \"},\"done\":false}\n\
                {\"message\":{\"content\":\"two\"},\"done\":false}\n\
                {\"done\":true}\n";
    let (frags, done, err) = feed_once(ProviderVariant::Ollama, body);
    assert!(err.is_none());
    assert!(done);
    assert_eq!(aggregate(&frags), "one two");
}

#[test]
fn partial_line_is_buffered_never_emitted() {
    let mut p = StreamParser::new(ProviderVariant::Openai);
    let r1 = p.parse_stream_chunk("data: {\"choices\":[{\"delta\":{\"con");
    assert!(r1.error.is_none());
    assert!(r1.fragments.is_empty());
    let r2 = p.parse_stream_chunk("tent\":\"split\"}}]}\n");
    assert!(r2.error.is_none());
    assert_eq!(r2.fragments, vec!["split".to_string()]);
}

#[test]
fn chunk_boundaries_never_change_the_answer() {
    let body = "data: {\"choices\":[{\"delta\":{\"content\":\"ab\\ncd\"}}]}\n\
                data: {\"choices\":[{\"delta\":{\"content\":\"ef\"}}]}\n\
                data: [DONE]\n";
    let (whole, done_whole, err_whole) = feed_once(ProviderVariant::Openai, body);
    assert!(err_whole.is_none());
    let expected = aggregate(&whole);
    assert_eq!(expected, "ab\ncdef");
    for cut in 0..body.len() {
        let mut p = StreamParser::new(ProviderVariant::Openai);
        let mut frags: Vec<String> = Vec::new();
        let r1 = p.parse_stream_chunk(&body[..cut]);
        assert!(r1.error.is_none());
        frags.extend(r1.fragments);
        let r2 = p.parse_stream_chunk(&body[cut..]);
        assert!(r2.error.is_none());
        frags.extend(r2.fragments);
        assert_eq!(r2.done, done_whole);
        assert_eq!(aggregate(&frags), expected);
    }
}

#[test]
fn zero_fragments_aggregate_to_empty_answer() {
    let empty: Vec<String> = Vec::new();
    assert_eq!(aggregate(&empty), "");
    let (frags, done, err) = feed_once(ProviderVariant::Openai, "data: [DONE]\n");
    assert!(err.is_none());
    assert!(done);
    assert_eq!(aggregate(&frags), "");
}

#[test]
fn embedded_error_object_aborts_the_stream() {
    let body = "data: {\"error\":{\"message\":\"model overloaded\"}}\n";
    let (frags, _done, err) = feed_once(ProviderVariant::Openai, body);
    assert!(frags.is_empty());
    match err {
        Some(LumenError::ProviderProtocolError { status, message }) => {
            assert_eq!(status, None);
            assert!(message.contains("model overloaded"));
        },
        other => panic!("unexpected outcome: {other:?}"),
    }
}

#[test]
fn fragment_after_terminal_signal_is_a_protocol_violation() {
    let body = "data: {\"choices\":[{\"delta\":{\"content\":\"ok\"}}]}\n\
                data: [DONE]\n\
                data: {\"choices\":[{\"delta\":{\"content\":\"late\"}}]}\n";
    let (frags, done, err) = feed_once(ProviderVariant::Openai, body);
    assert_eq!(frags, vec!["ok".to_string()]);
    assert!(done);
    assert!(matches!(err, Some(LumenError::ProviderProtocolError { status: None, .. })));
}

#[test]
fn malformed_fragment_framing_is_an_error() {
    let body = "data: {\"choices\":[{\"delta\":{\"content\":\"unterminated}]}\n";
    let (frags, _done, err) = feed_once(ProviderVariant::Openai, body);
    assert!(frags.is_empty());
    assert!(matches!(err, Some(LumenError::ProviderProtocolError { .. })));
}

#[test]
fn fragments_before_an_error_stand() {
    let body = "data: {\"choices\":[{\"delta\":{\"content\":\"kept\"}}]}\n\
                data: {\"error\":\"bad\"}\n";
    let (frags, _done, err) = feed_once(ProviderVariant::Openai, body);
    assert_eq!(frags, vec!["kept".to_string()]);
    assert!(err.is_some());
}

#[test]
fn escaped_text_in_fragments_is_decoded() {
    let body = "data: {\"choices\":[{\"delta\":{\"content\":\"line\\nbreak \\\"q\\\" \\u0041\"}}]}\ndata: [DONE]\n";
    let (frags, _done, err) = feed_once(ProviderVariant::Openai, body);
    assert!(err.is_none());
    assert_eq!(aggregate(&frags), "line\nbreak \"q\" A");
}

#[test]
fn aggregator_accumulates_in_arrival_order() {
    let mut agg = StreamAggregator::new();
    agg.push_fragment("feat: ");
    agg.push_fragment("update foo");
    assert_eq!(agg.take_answer(), "feat: update foo");
}

#[test]
fn draft_scenario_end_to_end() {
    let entity = GitEntity::Diff { staged: true, patch: String::from("+foo\n-bar") };
    let kind = prompt_kind_of(&CommandIntent::Draft { context: None });
    let conv = prepare_conversation(&entity, &kind).unwrap();
    assert_eq!(conv.messages.len(), 2);
    assert!(conv.messages[1].text.contains("+foo\n-bar"));
    let mocked = vec!["feat: ".to_string(), "update foo".to_string()];
    assert_eq!(aggregate(&mocked), "feat: update foo");
}
