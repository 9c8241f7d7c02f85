use std::error::Error;

type Test = Result<(), Box<dyn Error>>;

#[test]
fn download_download_setup_test() -> Test {
    Ok(())
}

#[test]
fn mod_download_setup_test() -> Test {
    Ok(())
}
