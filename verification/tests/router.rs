use http_core::router::{route, Route};

#[test]
fn files_are_fetched_and_stored() {
    assert_eq!(route(b"GET", b"/files/a.txt"), Route::FileGet(b"a.txt"));
    assert_eq!(route(b"POST", b"/files/a.txt"), Route::FilePost(b"a.txt"));
    assert_eq!(route(b"GET", b"/files/"), Route::FileGet(b""));
    assert_eq!(route(b"POST", b"/files/"), Route::FilePost(b""));
    assert_eq!(route(b"GET", b"/files/dir/b"), Route::FileGet(b"dir/b"));
    assert_eq!(route(b"GET", b"/files/%41"), Route::FileGet(b"%41"));
}

#[test]
fn fixed_paths() {
    assert_eq!(route(b"GET", b"/user-agent"), Route::UserAgent);
    assert_eq!(route(b"GET", b"/"), Route::Root);
}

#[test]
fn echo_takes_what_follows_the_prefix() {
    assert_eq!(route(b"GET", b"/echo/abc"), Route::Echo(b"abc"));
    assert_eq!(route(b"GET", b"/echo/"), Route::Echo(b""));
    assert_eq!(route(b"GET", b"/echo/a/b?c=d"), Route::Echo(b"a/b?c=d"));
    assert_eq!(route(b"GET", b"/echo/%20"), Route::Echo(b"%20"));
}

#[test]
fn other_paths_are_not_found() {
    let paths: [&[u8]; 9] = [
        b"", b"/echo", b"/files", b"/user-agent/", b"/user-agents", b"/Echo/a", b"/FILES/a",
        b"//", b"/index.html",
    ];
    for path in paths {
        assert_eq!(route(b"GET", path), Route::NotFound);
    }
}

#[test]
fn other_methods_are_not_allowed() {
    let methods: [&[u8]; 8] = [b"PUT", b"DELETE", b"HEAD", b"get", b"Get", b"post", b"", b"GETS"];
    let paths: [&[u8]; 5] = [b"/", b"/echo/a", b"/user-agent", b"/files/a", b"/nothing"];
    for method in methods {
        for path in paths {
            assert_eq!(route(method, path), Route::MethodNotAllowed);
        }
    }
}

#[test]
fn post_outside_files_is_not_allowed() {
    let paths: [&[u8]; 6] = [b"/", b"/echo/a", b"/user-agent", b"/files", b"/nothing", b""];
    for path in paths {
        assert_eq!(route(b"POST", path), Route::MethodNotAllowed);
    }
}
