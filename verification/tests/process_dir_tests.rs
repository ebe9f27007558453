use webshell::process_dir::{fs_list_message, listing_with_parent, open_reply, parent_dir, FsRequest};
use webshell::server::Server;

fn fs_request(data: &TransferData) -> FsRequest {
    Server::new().handle_fs(data)
}
use webshell::protocol::{FsEntry, TransferData};

fn msg(value: &str, args: &[&str]) -> TransferData {
    TransferData {
        command: "fs".to_string(),
        value: value.to_string(),
        args: args.iter().map(|a| a.to_string()).collect(),
    }
}

#[test]
fn fs_commands_are_recognised() {
    assert_eq!(fs_request(&msg("list", &["/src"])), FsRequest::List("/src".to_string()));
    assert_eq!(fs_request(&msg("new", &["{}"])), FsRequest::New("{}".to_string()));
    assert_eq!(fs_request(&msg("new_dir", &["/a/b"])), FsRequest::NewDir("/a/b".to_string()));
    assert_eq!(fs_request(&msg("delete", &["/a"])), FsRequest::Delete("/a".to_string()));
    assert_eq!(fs_request(&msg("open", &["/a.txt"])), FsRequest::Open("/a.txt".to_string()));
    assert_eq!(
        fs_request(&msg("save", &["{}", "text"])),
        FsRequest::Save { entry: "{}".to_string(), content: "text".to_string() }
    );
    assert_eq!(fs_request(&msg("save", &["{}"])), FsRequest::SaveWithoutContent("{}".to_string()));
    assert_eq!(fs_request(&msg("list", &[])), FsRequest::Nothing);
    assert_eq!(fs_request(&msg("rename", &["a", "b"])), FsRequest::Unknown("rename".to_string()));
}

#[test]
fn open_reply_appends_the_content() {
    let r = open_reply(&msg("open", &["/a.txt"]), "hello".to_string());
    assert_eq!(r, msg("open", &["/a.txt", "hello"]));
}

#[test]
fn listing_message_and_parent_entry() {
    assert_eq!(fs_list_message(vec!["{\"x\":1}".to_string()]), msg("list", &["{\"x\":1}"]));
    let entry = FsEntry { is_dir: false, name: "a".to_string(), path: "/d/a".to_string() };
    let listed = listing_with_parent(vec![entry], Some(("/".to_string(), true)));
    assert_eq!(listed.len(), 2);
    assert_eq!(listed[1], FsEntry { is_dir: true, name: "..".to_string(), path: "/".to_string() });
    assert_eq!(listing_with_parent(vec![], None), vec![]);
}

#[test]
fn parent_directories() {
    assert_eq!(parent_dir("/src/files"), Some("/src".to_string()));
    assert_eq!(parent_dir("/src"), Some("/".to_string()));
    assert_eq!(parent_dir("/"), None);
    assert_eq!(parent_dir("name"), Some("".to_string()));
}
