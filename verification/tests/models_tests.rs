use gravador::models::{get_model_filenames, model_download_url, unavailable_message, FetchStep, ModelFetch};

#[test]
fn filenames_for_models() {
    assert_eq!(get_model_filenames("small"), vec!["ggml-small.bin"]);
    assert_eq!(get_model_filenames("tiny"), vec!["ggml-tiny.bin"]);
    assert_eq!(
        get_model_filenames("large"),
        vec!["ggml-large-v3-turbo.bin", "ggml-large-v3.bin", "ggml-large-v2.bin", "ggml-large-v1.bin"]
    );
    assert_eq!(get_model_filenames("Large"), vec!["ggml-Large.bin"]);
}

#[test]
fn download_address() {
    assert_eq!(
        model_download_url("ggml-base.bin"),
        "https://huggingface.co/ggerganov/whisper.cpp/resolve/main/ggml-base.bin"
    );
    assert_eq!(
        unavailable_message("large"),
        "Nenhuma variantedo modelo 'large' esta disponivel. Tente outro modelo (tiny, base, small, medium)."
    );
}

fn same(a: &FetchStep, b: &FetchStep) -> bool {
    a == b
}

#[test]
fn local_file_is_used_first() {
    let mut f = ModelFetch::new("large");
    assert!(same(&f.step(), &FetchStep::CheckLocal(0)));
    f.report_local(false);
    assert!(same(&f.step(), &FetchStep::CheckLocal(1)));
    assert_eq!(f.filename(1), "ggml-large-v3.bin");
    f.report_local(true);
    assert!(same(&f.step(), &FetchStep::UseExisting(1)));
}

#[test]
fn downloads_go_in_order_until_one_succeeds() {
    let mut f = ModelFetch::new("large");
    for _ in 0..4 {
        f.report_local(false);
    }
    assert!(same(&f.step(), &FetchStep::CreateDir));
    f.report_dir(true);
    assert!(same(&f.step(), &FetchStep::Download(0)));
    f.report_download(false);
    assert!(same(&f.step(), &FetchStep::Download(1)));
    f.report_download(true);
    assert!(same(&f.step(), &FetchStep::UseDownloaded(1)));
}

#[test]
fn nothing_available() {
    let mut f = ModelFetch::new("base");
    f.report_local(false);
    f.report_dir(true);
    f.report_download(false);
    assert!(same(&f.step(), &FetchStep::Unavailable));
}

#[test]
fn folder_failure_stops_the_lookup() {
    let mut f = ModelFetch::new("base");
    f.report_local(false);
    assert!(same(&f.step(), &FetchStep::CreateDir));
    f.report_dir(false);
    assert!(same(&f.step(), &FetchStep::DirFailed));
}
