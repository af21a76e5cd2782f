use buildmeter::pricing::{get_current_pricing, OrderExecutionMetrics, PricingInfo};

fn metrics(
    cpu_millis: u64,
    wall_millis: u64,
    processes_forked: u64,
    uploaded_millimb: u64,
    uploaded_files: u64,
) -> OrderExecutionMetrics {
    OrderExecutionMetrics {
        cpu_millis,
        wall_millis,
        processes_forked,
        uploaded_millimb,
        uploaded_files,
        time_until_overdraft_stop: None,
    }
}

#[test]
fn current_pricing_snapshot() {
    let p = get_current_pricing();
    assert_eq!(p.cpu_time_factor, 100_000);
    assert_eq!(p.wall_time_factor, 5_000);
    assert_eq!(p.upload_mb_factor, 50_000);
    assert_eq!(p.upload_file_factor, 500_000);
    assert_eq!(p.process_fork_cost, 1_000_000_000);
    assert_eq!(p.overdraft_millis_allowed, 60_000);
    assert_eq!(p.error_order_cost, 100_000_000);
}

#[test]
fn cost_components_are_exact_products() {
    let p = get_current_pricing();
    let m = metrics(120, 350, 2, 200, 3);
    let c = m.calculate_costs(&p);
    assert_eq!(c.cpu_time, 12_000_000);
    assert_eq!(c.wall_time, 1_750_000);
    assert_eq!(c.processes, 2_000_000_000);
    assert_eq!(c.upload_mb, 10_000_000);
    assert_eq!(c.upload_files, 1_500_000);
    assert_eq!(c.grand_total(), 2_025_250_000);
}

#[test]
fn zero_metrics_cost_nothing() {
    let p = get_current_pricing();
    let c = metrics(0, 0, 0, 0, 0).calculate_costs(&p);
    assert_eq!(c.grand_total(), 0);
}

#[test]
fn custom_pricing_applies_per_field() {
    let p = PricingInfo {
        cpu_time_factor: 1,
        wall_time_factor: 2,
        upload_mb_factor: 3,
        upload_file_factor: 4,
        process_fork_cost: 5,
        overdraft_millis_allowed: 0,
        error_order_cost: 0,
    };
    let c = metrics(10, 20, 30, 40, 50).calculate_costs(&p);
    assert_eq!(c.cpu_time, 10);
    assert_eq!(c.wall_time, 40);
    assert_eq!(c.upload_mb, 120);
    assert_eq!(c.upload_files, 200);
    assert_eq!(c.processes, 150);
    assert_eq!(c.grand_total(), 520);
}

#[test]
fn large_quantities_do_not_overflow() {
    let p = PricingInfo {
        cpu_time_factor: u32::MAX,
        wall_time_factor: u32::MAX,
        upload_mb_factor: u32::MAX,
        upload_file_factor: u32::MAX,
        process_fork_cost: u32::MAX,
        overdraft_millis_allowed: u32::MAX,
        error_order_cost: u64::MAX,
    };
    let c = metrics(u64::MAX, u64::MAX, u64::MAX, u64::MAX, u64::MAX).calculate_costs(&p);
    assert_eq!(c.cpu_time, u64::MAX as u128 * u32::MAX as u128);
    assert_eq!(c.grand_total(), 5 * (u64::MAX as u128 * u32::MAX as u128));
}
