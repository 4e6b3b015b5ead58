use jarvis::runtime::{create_runtime, RuntimeAdapter};

#[test]
fn factory_native() {
    let rt = create_runtime("native").unwrap();
    assert_eq!(rt.name(), "native");
    assert!(rt.has_shell_access());
}

#[test]
fn factory_docker_errors() {
    match create_runtime("docker") {
        Err(err) => assert!(err.message().contains("尚未实现")),
        Ok(_) => panic!("docker runtime should error"),
    }
}

#[test]
fn factory_cloudflare_errors() {
    match create_runtime("cloudflare") {
        Err(err) => assert!(err.message().contains("尚未实现")),
        Ok(_) => panic!("cloudflare runtime should error"),
    }
}

#[test]
fn factory_unknown_errors() {
    match create_runtime("wasm-edge-unknown") {
        Err(err) => assert!(err.message().contains("未知的运行时类型")),
        Ok(_) => panic!("unknown runtime should error"),
    }
}

#[test]
fn factory_empty_errors() {
    match create_runtime("") {
        Err(err) => assert!(err.message().contains("不能为空")),
        Ok(_) => panic!("empty runtime should error"),
    }
}
