use hope::ollama::format_size;

#[test]
fn format_size_test() {
    assert_eq!(format_size(1024), "1.0 KB");
    assert_eq!(format_size(1048576), "1.0 MB");
    assert_eq!(format_size(1073741824), "1.0 GB");
}

fn float_size(bytes: u64) -> String {
    const KB: u64 = 1024;
    const MB: u64 = 1024 * KB;
    const GB: u64 = 1024 * MB;
    if bytes >= GB {
        format!("{:.1} GB", bytes as f64 / GB as f64)
    } else if bytes >= MB {
        format!("{:.1} MB", bytes as f64 / MB as f64)
    } else if bytes >= KB {
        format!("{:.1} KB", bytes as f64 / KB as f64)
    } else {
        format!("{} B", bytes)
    }
}

#[test]
fn format_size_matches_float_formatting() {
    let mut values: Vec<u64> = vec![0, 1, 999, 1023, 1024, 1075, 1126, 1280, 1331, 3328, 1048575, 1048576,
        1_310_720, 1_363_149, 1073741823, 1073741824, 1_342_177_280, 5_000_000_000,
        (1u64 << 53) - 1, 1u64 << 53, (1u64 << 53) + 1, (1u64 << 53) + 3, (1u64 << 60) + 12345,
        u64::MAX - 1, u64::MAX];
    let mut x: u64 = 12345;
    for _ in 0..20000 {
        x = x.wrapping_mul(6364136223846793005).wrapping_add(1442695040888963407);
        values.push(x >> (x % 64));
        values.push((x % 4096) * 512 + 256);
    }
    for v in values {
        assert_eq!(format_size(v), float_size(v), "bytes = {}", v);
    }
}

use hope::context::{chat_input, gpu_from_drm, gpu_from_lspci, os_context_text, pick_gpu, ChatInput};
use hope::models::{all_models, is_recommended, select_model_for, SystemContext};
use hope::ollama::{base_url, chat_url, model_info, tags_url, user_message};

const GIB: u64 = 1 << 30;

#[test]
fn model_tiers_exist() {
    let models = all_models();
    assert_eq!(models.len(), 5);
    assert_eq!(models[0].name, "hope-nano");
    assert_eq!(models[4].name, "hope-xl");
}

#[test]
fn nano_always_recommended() {
    let sys = SystemContext {
        ram_total_bytes: 2 * GIB,
        ram_available_bytes: 3 * GIB / 2,
        cpu_cores: 2,
        gpu_info: None,
    };
    let nano = &all_models()[0];
    assert!(is_recommended(nano, &sys));
}

fn ctx(avail: u64) -> SystemContext {
    SystemContext { ram_total_bytes: 64 * GIB, ram_available_bytes: avail, cpu_cores: 8, gpu_info: None }
}

#[test]
fn model_selection() {
    assert_eq!(select_model_for(&ctx(GIB / 2)), "smollm2:135m");
    assert_eq!(select_model_for(&ctx(5 * GIB - 1)), "smollm2:135m");
    assert_eq!(select_model_for(&ctx(5 * GIB)), "phi4-mini");
    assert_eq!(select_model_for(&ctx(9 * GIB)), "lfm-2.5:1.6b");
    assert_eq!(select_model_for(&ctx(17 * GIB)), "qwen3:7b-q4");
    assert_eq!(select_model_for(&ctx(33 * GIB)), "llama3.1:8b");
}

#[test]
fn status_line() {
    let sys = SystemContext {
        ram_total_bytes: 16 * GIB,
        ram_available_bytes: 6 * GIB + GIB / 4,
        cpu_cores: 8,
        gpu_info: Some("AMD/ATI".into()),
    };
    let t = 16.0f64;
    let a = (6 * GIB + GIB / 4) as f64 / GIB as f64;
    assert_eq!(sys.status_string(), format!("RAM: {:.1}/{:.1} GB, CPU: {} cores, GPU: AMD/ATI", t - a, t, 8));
    let odd = SystemContext { ram_total_bytes: GIB, ram_available_bytes: 2 * GIB, cpu_cores: 1, gpu_info: None };
    assert_eq!(odd.status_string(), format!("RAM: {:.1}/{:.1} GB, CPU: {} cores", 1.0f64 - 2.0f64, 1.0f64, 1));
    assert_eq!(odd.status_string(), "RAM: -1.0/1.0 GB, CPU: 1 cores");
}

#[test]
fn gpu_detection() {
    assert_eq!(gpu_from_lspci("01:00.0 VGA: NVIDIA Corp").as_deref(), Some("NVIDIA (proprietary)"));
    assert_eq!(gpu_from_lspci("Advanced Micro Devices [AMD/ATI]").as_deref(), Some("AMD/ATI"));
    assert_eq!(gpu_from_lspci("Intel"), None);
    let names = vec!["renderD128".to_string(), "card0-eDP-1".to_string(), "card1".to_string()];
    assert_eq!(gpu_from_drm(&names).as_deref(), Some("DRM: card1"));
    assert_eq!(pick_gpu(Some("Intel".into()), Some(names)).as_deref(), Some("DRM: card1"));
    assert_eq!(pick_gpu(None, None), None);
}

#[test]
fn session_context() {
    let s = os_context_text(None, Some(":0".into()), None, Some("hope".into()), Some(" up 3 hours\n".into()));
    assert_eq!(s, "X11: :0\nUser: hope\nUptime: up 3 hours");
}

#[test]
fn chat_lines() {
    assert_eq!(chat_input("  exit \n"), ChatInput::Quit);
    assert_eq!(chat_input("quit"), ChatInput::Quit);
    assert_eq!(chat_input("clear"), ChatInput::Clear);
    assert_eq!(chat_input(" \t"), ChatInput::Empty);
    assert_eq!(chat_input(" hi there \n"), ChatInput::Message("hi there".into()));
}

#[test]
fn service_endpoints() {
    assert_eq!(base_url(None), "http://localhost:11434");
    assert_eq!(base_url(Some("http://h:1".into())), "http://h:1");
    assert_eq!(chat_url("http://h:1"), "http://h:1/api/chat");
    assert_eq!(tags_url("http://h:1"), "http://h:1/api/tags");
    let m = user_message("hello");
    assert_eq!((m.role.as_str(), m.content.as_str()), ("user", "hello"));
    let info = model_info("nano".into(), 1536);
    assert_eq!(info.size, "1.5 KB");
    assert_eq!(format_size(1023), "1023 B");
}

#[test]
fn nano_recommended_on_any_memory() {
    let nano = &all_models()[0];
    assert!(is_recommended(nano, &ctx(0)));
    assert!(is_recommended(nano, &ctx(GIB / 2)));
    let small = &all_models()[1];
    assert!(!is_recommended(small, &ctx(5 * GIB - 1)));
    assert!(is_recommended(small, &ctx(5 * GIB)));
}
