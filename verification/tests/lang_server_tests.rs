use webshell::lang_servers::{find_lang_server, json_messages, lsp_frame, lsp_pattern_compiles};
use webshell::protocol::LangServerConfig;

fn config(name: &str, program: &str) -> LangServerConfig {
    LangServerConfig { name: name.to_string(), program: program.to_string(), args: vec![] }
}

#[test]
fn finds_the_first_server_of_a_language() {
    let configs = vec![config("rust", "rls"), config("python", "pyls"), config("rust", "rust-analyzer")];
    assert_eq!(find_lang_server(&configs, "rust"), Some(0));
    assert_eq!(find_lang_server(&configs, "python"), Some(1));
    assert_eq!(find_lang_server(&configs, "go"), None);
    assert_eq!(find_lang_server(&vec![], "rust"), None);
}

#[test]
fn frames_announce_the_byte_length() {
    assert_eq!(lsp_frame(&b"{}".to_vec()), "Content-Length: 2\r\n\r\n{}");
    assert_eq!(lsp_frame(&"{\"é\":1}".as_bytes().to_vec()), "Content-Length: 8\r\n\r\n{\"é\":1}");
    assert_eq!(lsp_frame(&vec![]), "Content-Length: 0\r\n\r\n");
    assert_eq!(lsp_frame(&vec![0xff, 0x7b]), "Content-Length: 2\r\n\r\n");
}

#[test]
fn server_output_is_cut_into_json_messages() {
    assert!(lsp_pattern_compiles());
    let out = b"Content-Length: 7\r\n\r\n{\"a\":1}Content-Length: 7\r\n\r\n{\"b\":2}".to_vec();
    assert_eq!(json_messages(&out), Some(vec!["{\"a\":1}".to_string(), "{\"b\":2}".to_string()]));
    assert_eq!(json_messages(&b"no json".to_vec()), Some(vec![]));
    assert_eq!(json_messages(&vec![0xff]), None);
}
