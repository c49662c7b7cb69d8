use mod_tile_rs::config::ModuleConfig;
use mod_tile_rs::http::{cache_control, etag, expires};
use mod_tile_rs::slippy::{
    HttpResponse, ResponseBody, ResponseHeader, ResponseWriteError, SlippyResponse, Statistics, TileResponse,
    WriteError, WriteOutcome,
};
use mod_tile_rs::tile::{ContentEncoding, MediaType, TileAge, TileRef, TileSource};
use mod_tile_rs::writer::{
    DescriptionWriter, HttpResponseWriter, ResponseRecorder, SlippyResponseWriter, StatisticsWriter, TileWriter,
    WriteContext,
};
use std::collections::VecDeque;
use std::rc::Rc;

struct MockWriter {
    default_length: usize,
    allowed_lengths: VecDeque<usize>,
    written_payload: Vec<u8>,
    written_lengths: Vec<usize>,
    headers: Vec<(String, String)>,
    content_type: Option<MediaType>,
    content_length: Option<usize>,
    fail_with: Option<i32>,
}

impl MockWriter {
    fn new(allowed_lengths: Vec<usize>) -> MockWriter {
        MockWriter {
            default_length: 1,
            allowed_lengths: allowed_lengths.into_iter().collect(),
            written_payload: Vec::new(),
            written_lengths: Vec::new(),
            headers: Vec::new(),
            content_type: None,
            content_length: None,
            fail_with: None,
        }
    }
}

impl HttpResponseWriter for MockWriter {
    fn append_http_header(&mut self, key: &str, value: &str) {
        self.headers.push((String::from(key), String::from(value)));
    }

    fn set_http_header(&mut self, key: &str, value: &str) {
        self.headers.retain(|(k, _)| k != key);
        self.headers.push((String::from(key), String::from(value)));
    }

    fn set_content_encoding(&mut self, _encoding: &ContentEncoding) {}

    fn set_content_type(&mut self, media_type: &MediaType) {
        self.content_type = Some(media_type.clone());
    }

    fn set_content_length(&mut self, length: usize) {
        self.content_length = Some(length);
    }

    fn write(&mut self, payload: &[u8]) -> i32 {
        if let Some(code) = self.fail_with {
            return code;
        }
        let allowed_length = match self.allowed_lengths.pop_front() {
            Some(length) => length,
            None => self.default_length,
        };
        let write_length = std::cmp::min(payload.len(), allowed_length);
        self.written_payload.extend_from_slice(&payload[..write_length]);
        self.written_lengths.push(write_length);
        write_length as i32
    }

    fn flush_response(&mut self) -> Result<(), ResponseWriteError> {
        Ok(())
    }
}

fn write_payload(allowed_lengths: Vec<usize>) -> MockWriter {
    let mut recorder = ResponseRecorder::new(MockWriter::new(allowed_lengths));
    let expected_payload = String::from("1234567");
    let written = recorder.write_content(expected_payload.as_bytes()).unwrap();
    assert_eq!(expected_payload.len(), written);
    let writer = recorder.into_writer();
    assert_eq!(expected_payload.as_bytes(), &writer.written_payload[..], "Unexpected payload written");
    writer
}

#[test]
fn test_write_content_small_lengths() {
    let writer = write_payload(vec![2, 2, 2, 2]);
    assert_eq!(vec![2, 2, 2, 1], writer.written_lengths, "Unexpected written lengths");
}

#[test]
fn test_write_content_large_lengths() {
    let writer = write_payload(vec![128]);
    assert_eq!(vec![7], writer.written_lengths, "Unexpected written lengths");
}

#[test]
fn test_write_content_paused_writes() {
    let writer = write_payload(vec![2, 0, 4, 0, 2]);
    assert_eq!(vec![2, 0, 4, 0, 1], writer.written_lengths, "Unexpected written lengths");
}

#[test]
fn test_write_content_delayed_writes() {
    let writer = write_payload(vec![0, 0, 4, 4]);
    assert_eq!(vec![0, 0, 4, 3], writer.written_lengths, "Unexpected written lengths");
}

#[test]
fn write_content_of_nothing_hands_the_writer_nothing() {
    let mut recorder = ResponseRecorder::new(MockWriter::new(vec![]));
    assert_eq!(Ok(0), recorder.write_content(b""));
    assert!(recorder.writer().written_lengths.is_empty());
}

#[test]
fn write_content_stops_at_the_first_error() {
    let mut recorder = ResponseRecorder::new(MockWriter::new(vec![3]));
    assert_eq!(Ok(3), recorder.write_content(b"abc"));
    let mut writer = recorder.into_writer();
    writer.fail_with = Some(-7);
    let mut recorder = ResponseRecorder::new(writer);
    assert_eq!(Err(ResponseWriteError { error_code: -7 }), recorder.write_content(b"defg"));
    assert_eq!(b"abc".to_vec(), recorder.writer().written_payload);
}

#[test]
fn headers_of_a_description() {
    assert_eq!("\"d41d8cd98f00b204e9800998ecf8427e\"", etag(b""));
    assert_eq!("\"99914b932bd37a50b983c5e7c90ae93b\"", etag(b"{}"));
    assert_eq!("max-age=604800", cache_control());
    assert_eq!("Thu, 8 Jan 1970 00:00:00 +0000", expires(0));
    assert_eq!("Thu, 8 Jan 1970 00:00:01 +0000", expires(1_999_999));
    assert_eq!("Wed, 7 Jan 1970 23:59:59 +0000", expires(-1_999_999));
}

#[test]
fn description_writer_sets_the_caching_headers() {
    let module_config = ModuleConfig::new();
    let context = WriteContext { module_config: &module_config, request_time: 0 };
    let header = ResponseHeader { mime_type: MediaType::ApplicationJson };
    let mut recorder = ResponseRecorder::new(MockWriter::new(vec![128]));
    let response = DescriptionWriter::write(&context, &header, "{}", &mut recorder).unwrap();
    let writer = recorder.into_writer();
    let expected_headers = vec![
        (String::from("etag"), String::from("\"99914b932bd37a50b983c5e7c90ae93b\"")),
        (String::from("cache-control"), String::from("max-age=604800")),
        (String::from("expires"), String::from("Thu, 8 Jan 1970 00:00:00 +0000")),
    ];
    assert_eq!(HttpResponse { status_code: 200, bytes_written: 2, http_headers: expected_headers.clone() }, response);
    assert_eq!(expected_headers, writer.headers);
    assert_eq!(Some(MediaType::ApplicationJson), writer.content_type);
    assert_eq!(Some(2), writer.content_length);
    assert_eq!(b"{}".to_vec(), writer.written_payload);
}

#[test]
fn statistics_writer_writes_nothing_but_json() {
    let module_config = ModuleConfig::new();
    let context = WriteContext { module_config: &module_config, request_time: 0 };
    let header = ResponseHeader { mime_type: MediaType::TextPlain };
    let mut recorder = ResponseRecorder::new(MockWriter::new(vec![]));
    let response = StatisticsWriter::write(&context, &header, "{\"a\":1}", &mut recorder).unwrap();
    let writer = recorder.into_writer();
    assert_eq!(0, response.bytes_written);
    assert_eq!(vec![(String::from("etag"), String::from("\"d41d8cd98f00b204e9800998ecf8427e\""))], response.http_headers);
    assert_eq!(None, writer.content_type);
}

#[test]
fn tile_writer_writes_png_tiles_only() {
    let module_config = ModuleConfig::new();
    let context = WriteContext { module_config: &module_config, request_time: 0 };
    let tile = TileResponse {
        source: TileSource::Cache,
        age: TileAge::Fresh,
        tile_ref: TileRef {
            raw_bytes: Rc::new(vec![9, 8, 7, 6]),
            begin: 1,
            end: 3,
            media_type: MediaType::ImagePng,
            encoding: ContentEncoding::NotCompressed,
        },
    };
    let mut recorder = ResponseRecorder::new(MockWriter::new(vec![1, 1]));
    let response = TileWriter::write(&context, &ResponseHeader { mime_type: MediaType::ImagePng }, &tile, &mut recorder).unwrap();
    assert_eq!(2, response.bytes_written);
    assert_eq!(vec![(String::from("etag"), String::from("\"8030b3dcdd08a28c2aaca1d6ea25053d\""))], response.http_headers);
    assert_eq!(vec![8, 7], recorder.writer().written_payload);
    assert_eq!(Some(MediaType::ImagePng), recorder.writer().content_type);
    let refused = TileWriter::write(&context, &ResponseHeader { mime_type: MediaType::TextPlain }, &tile, &mut recorder);
    assert_eq!(Err(WriteError::UnsupportedMediaType(MediaType::ImagePng)), refused);
    assert_eq!(vec![1, 1], recorder.writer().written_lengths, "a refused tile writes nothing");
}

#[test]
fn slippy_writer_reports_writer_failures() {
    let module_config = ModuleConfig::new();
    let context = WriteContext { module_config: &module_config, request_time: 0 };
    let response = SlippyResponse {
        header: ResponseHeader { mime_type: MediaType::ApplicationJson },
        body: ResponseBody::Statistics(Statistics::new()),
    };
    let mut writer = MockWriter::new(vec![]);
    writer.fail_with = Some(-5);
    let mut recorder = ResponseRecorder::new(writer);
    let outcome = SlippyResponseWriter::write(&context, &response, "{}", &mut recorder);
    assert_eq!(WriteOutcome::Processed(Err(WriteError::ResponseWrite(ResponseWriteError { error_code: -5 }))), outcome);
}
