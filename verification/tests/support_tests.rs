use myos::drawing::Size;
use myos::font::{FontDescriptor, FontFamily, FontManager};
use myos::ringbuffer::ConcurrentRingBuffer;
use myos::scheduler::{Scheduler, SchedulerState, SpawnOption};
use myos::strbuf::{Sb255, StringBuffer};
use myos::system::{ProcessorCoreType, ProcessorId, ProcessorIndex, System, Version};
use myos::text::{LineBreakMode, TextProcessing};
use myos::threads::Priority;

fn ui_font() -> FontDescriptor {
    let mgr = FontManager::init(Vec::new(), Vec::new());
    mgr.system_font().expect("system font missing")
}

#[test]
fn version_packs_and_unpacks() {
    let v = Version::new(1, 2, 3, "beta");
    assert_eq!(v.maj(), 1);
    assert_eq!(v.min(), 2);
    assert_eq!(v.patch(), 3);
    assert_eq!(v.as_u32(), 0x0102_0003);
    assert_eq!(v.rel(), "beta");
    let v0 = Version::new(0, 0, 1, "");
    assert_eq!(v0.as_u32(), 1);
    assert_eq!(v0.rel(), "");
}

#[test]
fn processor_identity_and_topology() {
    assert_eq!(ProcessorId(7).as_u32(), 7);
    let sys = System::new(vec![
        ProcessorCoreType::Main,
        ProcessorCoreType::Sub,
        ProcessorCoreType::Main,
    ]);
    assert_eq!(sys.num_of_active_cpus(), 3);
    assert_eq!(sys.num_of_performance_cpus(), 2);
    assert_eq!(sys.core_type(1), ProcessorCoreType::Sub);
}

#[test]
fn fixed_font_metrics() {
    let mgr = FontManager::init(Vec::new(), Vec::new());
    let sysfont = mgr.fixed_system_font().unwrap();
    assert_eq!(sysfont.width(), 8);
    assert_eq!(sysfont.line_height(), 20);
    let small = mgr.fixed_small_font().unwrap();
    assert_eq!(small.width(), 6);
    assert_eq!(small.line_height(), 10);
    let d = mgr.system_font().unwrap();
    assert_eq!(d.point(), 16);
    assert_eq!(d.line_height(), 20);
    assert_eq!(d.width_of('x'), 8);
    assert!(!d.is_scalable());
    // Absent scalable families fall back to the system font.
    let ui = mgr.ui_font().unwrap();
    assert_eq!(ui.point(), 16);
    assert!(FontDescriptor::new(&mgr, FontFamily::Serif, 12).is_none());
}

#[test]
fn line_statuses_split_on_newlines() {
    let font = ui_font();
    let lines =
        TextProcessing::line_statuses(font, "ab\ncd", Size::new(1000, 1000), 0, LineBreakMode::CharWrapping);
    assert_eq!(lines.len(), 2);
    assert_eq!(lines[0].start_position, 0);
    assert_eq!(lines[0].end_position, 2);
    assert_eq!(lines[0].width, 16);
    assert_eq!(lines[0].height, 20);
    assert_eq!(lines[1].start_position, 3);
    assert_eq!(lines[1].end_position, 5);
    assert_eq!(lines[1].width, 16);
}

#[test]
fn line_statuses_wrap_at_the_width() {
    let font = ui_font();
    // Four glyphs of eight pixels against a twenty-pixel bound: two per line.
    let lines =
        TextProcessing::line_statuses(font, "aaaa", Size::new(20, 1000), 0, LineBreakMode::CharWrapping);
    assert_eq!(lines.len(), 2);
    assert_eq!((lines[0].start_position, lines[0].end_position), (0, 2));
    assert_eq!((lines[1].start_position, lines[1].end_position), (2, 4));
    assert_eq!(lines[0].width, 16);
    assert_eq!(lines[1].width, 16);
}

#[test]
fn line_statuses_respect_the_line_cap() {
    let font = ui_font();
    let lines =
        TextProcessing::line_statuses(font, "a\nb\nc", Size::new(1000, 1000), 2, LineBreakMode::CharWrapping);
    assert_eq!(lines.len(), 2);
}

#[test]
fn bounding_size_measures_the_line_block() {
    let font = ui_font();
    let r = TextProcessing::bounding_size(
        font,
        "ab\ncd",
        Size::new(1000, 1000),
        0,
        LineBreakMode::CharWrapping,
    );
    assert_eq!(r.width(), 16);
    assert_eq!(r.height(), 40);
    let empty = TextProcessing::bounding_size(
        font,
        "",
        Size::new(1000, 1000),
        0,
        LineBreakMode::CharWrapping,
    );
    assert_eq!(empty.width(), 0);
    assert_eq!(empty.height(), 0);
}

#[test]
fn attributed_string_carries_its_attributes() {
    let mgr = FontManager::init(Vec::new(), Vec::new());
    let ats = myos::text::AttributedString::new(&mgr)
        .top_right()
        .text("hello");
    assert_eq!(ats.text(), "hello");
    assert_eq!(ats.align(), myos::text::TextAlignment::Right);
    assert_eq!(ats.valign(), myos::text::VerticalAlignment::Top);
    let bounds = ats.bounding_size(Size::new(1000, 1000), 1);
    assert_eq!(bounds.width(), 40);
    assert_eq!(bounds.height(), 20);
}

#[test]
fn small_string_buffer_stores_and_clears() {
    let mut sb = Sb255::new();
    assert_eq!(sb.len(), 0);
    sb.write_str("hello");
    sb.write_str(" world");
    assert_eq!(sb.len(), 11);
    assert_eq!(sb.as_bytes(), b"hello world".to_vec());
    sb.clear();
    assert_eq!(sb.len(), 0);
    assert_eq!(sb.as_bytes(), Vec::<u8>::new());
}

#[test]
fn decimal_rendering_is_exact() {
    let mut sb = StringBuffer::new();
    sb.append_decimal(0);
    sb.push_byte(b' ');
    sb.append_decimal(1234);
    sb.push_byte(b' ');
    sb.append_decimal_pad(7, 3, b'0');
    sb.push_byte(b' ');
    sb.append_decimal_pad(7, 3, b' ');
    sb.push_byte(b' ');
    sb.append_decimal_pad(1234, 3, b'0');
    assert_eq!(sb.as_bytes(), b"0 1234 007   7 1234".to_vec());
}

#[test]
fn ring_buffer_is_fifo_with_one_sentinel_slot() {
    let mut rb: ConcurrentRingBuffer<u32> = ConcurrentRingBuffer::with_capacity(4);
    assert_eq!(rb.read(), None);
    assert_eq!(rb.write(1), Ok(()));
    assert_eq!(rb.write(2), Ok(()));
    assert_eq!(rb.write(3), Ok(()));
    // Capacity four keeps one sentinel slot: the fourth write is refused.
    assert_eq!(rb.write(4), Err(()));
    assert_eq!(rb.read(), Some(1));
    assert_eq!(rb.write(4), Ok(()));
    assert_eq!(rb.read(), Some(2));
    assert_eq!(rb.read(), Some(3));
    assert_eq!(rb.read(), Some(4));
    assert_eq!(rb.read(), None);
}

#[test]
fn statistics_listing_is_printed_byte_for_byte() {
    let mut cores = Vec::new();
    cores.push(ProcessorCoreType::Main);
    let mut s = Scheduler::new(System::new(cores));
    s.enable();
    let _h = SpawnOption::with_priority(Priority::Normal)
        .spawn_f(&mut s, ProcessorIndex(0), "worker")
        .unwrap();
    let mut sb = StringBuffer::new();
    s.print_statistics(&mut sb, false);
    let text = String::from_utf8(sb.as_bytes()).unwrap();
    let expected = "PID PRI %CPU TIME     NAME\n  0 0 -  0.0 00:00.00 (idle)\n  0 2 R  0.0 00:00.00 worker\n";
    assert_eq!(text, expected);
    // Excluding idle threads drops the idle row.
    s.print_statistics(&mut sb, true);
    let text = String::from_utf8(sb.as_bytes()).unwrap();
    assert_eq!(text, "PID PRI %CPU TIME     NAME\n  0 2 R  0.0 00:00.00 worker\n");
}

#[test]
fn statistics_listing_shows_hours_once_accumulated() {
    let mut cores = Vec::new();
    cores.push(ProcessorCoreType::Main);
    let mut s = Scheduler::new(System::new(cores));
    s.enable();
    let h = SpawnOption::with_priority(Priority::Normal)
        .spawn_f(&mut s, ProcessorIndex(0), "worker")
        .unwrap();
    if let Some(t) = &mut s.pool.data[h.0] {
        // One hour of running time, in the clock units the listing divides.
        t.cpu_time = 10_000 * 360_000;
    }
    let mut sb = StringBuffer::new();
    s.print_statistics(&mut sb, true);
    let text = String::from_utf8(sb.as_bytes()).unwrap();
    assert_eq!(text, "PID PRI %CPU TIME     NAME\n  0 2 R  0.0 01:00:00 worker\n");
}

#[test]
fn disabled_scheduler_reports_nothing_running() {
    let mut cores = Vec::new();
    cores.push(ProcessorCoreType::Main);
    let s = Scheduler::new(System::new(cores));
    assert_eq!(s.current_state(), SchedulerState::Disabled);
    assert_eq!(s.current_thread(ProcessorIndex(0)), None);
    assert_eq!(s.current_pid(ProcessorIndex(0)), None);
}
