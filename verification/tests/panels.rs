use glideslope::atc::constraints::ClearanceType;
use glideslope::atc::controller::Controller;
use glideslope::crew::queue::TaskQueue;
use glideslope::crew::task::{Task, TaskSource};
use glideslope::panels::{compute, fo_queue_lines, granted_lines, Area, LineStyle, PanelLine};
use glideslope::sim_core::ids::TaskId;
use glideslope::sim_core::time::Duration;

fn line(text: &str, style: LineStyle) -> PanelLine {
    PanelLine { text: text.to_string(), style }
}

fn task(id: u64, description: &str, secs: u64) -> Task {
    Task::new(TaskId(id), description.to_string(), Duration::from_secs(secs), TaskSource::Adhoc)
}

fn proficient(base: Duration) -> Duration {
    base
}

#[test]
fn regions_tile_the_full_area_without_gaps_or_overlap() {
    let area = Area { x: 0, y: 0, width: 120, height: 40 };
    let layout = compute(area);
    // Every region's area should sum to the parent's: overlapping or
    // gapped rows or columns would make it drift.
    let total = layout.pfd.area()
        + layout.engine.area()
        + layout.aircraft_status.area()
        + layout.atc.area()
        + layout.weather.area()
        + layout.fo_queue.area()
        + layout.log.area()
        + layout.command_line.area();
    assert_eq!(total, area.area());
}

#[test]
fn command_line_is_pinned_to_the_bottom() {
    let area = Area { x: 0, y: 0, width: 120, height: 40 };
    let layout = compute(area);
    assert_eq!(layout.command_line.y + layout.command_line.height, area.height);
}

#[test]
fn rows_take_their_fixed_heights_and_columns_a_third_each() {
    let layout = compute(Area { x: 0, y: 0, width: 120, height: 40 });
    assert_eq!(layout.pfd, Area { x: 0, y: 0, width: 40, height: 8 });
    assert_eq!(layout.fo_queue, Area { x: 80, y: 8, width: 40, height: 8 });
    assert_eq!(layout.log, Area { x: 0, y: 16, width: 120, height: 21 });
    assert_eq!(layout.command_line, Area { x: 0, y: 37, width: 120, height: 3 });
}

#[test]
fn an_idle_queue_says_so() {
    assert_eq!(fo_queue_lines(&TaskQueue::new()), vec![line("[Idle]", LineStyle::Placeholder)]);
}

#[test]
fn the_queue_panel_shows_the_executing_task_and_what_waits() {
    let mut queue = TaskQueue::new();
    queue.delegate(task(1, "Read QRH", 10), &proficient);
    queue.delegate(task(2, "Readback", 5), &proficient);
    queue.integrate(Duration::from_millis(1500), &proficient);
    assert_eq!(
        fo_queue_lines(&queue),
        vec![
            line("[Executing]", LineStyle::Title),
            line("Read QRH", LineStyle::Plain),
            line("8 sec remaining", LineStyle::Plain),
            line("------------------------", LineStyle::Plain),
            line("[Pending]", LineStyle::Title),
            line("Readback", LineStyle::Plain),
        ]
    );
}

#[test]
fn the_atc_panel_lists_granted_clearances_in_order() {
    let mut atc = Controller::new();
    assert_eq!(granted_lines(&atc), vec![line("no clearances granted", LineStyle::Placeholder)]);
    atc.request(ClearanceType::Takeoff);
    atc.request(ClearanceType::Pushback);
    assert_eq!(
        granted_lines(&atc),
        vec![line("cleared: PUSHBACK", LineStyle::Plain), line("cleared: TAKEOFF", LineStyle::Plain)]
    );
}

#[test]
fn columns_and_rows_fill_any_area() {
    for (x, y, width, height) in [(0u16, 0u16, 100u16, 30u16), (5, 2, 121, 41), (0, 0, 7, 10), (3, 1, 200, 60)] {
        let layout = compute(Area { x, y, width, height });
        assert_eq!(layout.pfd.y, y);
        assert_eq!(layout.command_line.y + layout.command_line.height, y + height);
        for row in [
            [layout.pfd, layout.engine, layout.aircraft_status],
            [layout.atc, layout.weather, layout.fo_queue],
        ] {
            assert_eq!(row[0].x, x);
            assert_eq!(row[0].x + row[0].width, row[1].x);
            assert_eq!(row[1].x + row[1].width, row[2].x);
            assert_eq!(row[2].x + row[2].width, x + width);
        }
    }
}
