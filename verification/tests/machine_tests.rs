use pcb_forge::machine::{
    distance_per_step_default, resolve_tool_selection, ConfigError, JobConfig, LaserConfig,
    Machine, SpindleBit, SpindleConfig, Tool, ToolConfig, ToolReference, WorkspaceSize,
};
use pcb_forge::toolpath::ToolSelection;
use pcb_forge::units::{AngularVelocity, Length, Power, Velocity};

fn test_machine() -> Machine {
    Machine {
        tools: vec![
            Tool::Laser(LaserConfig {
                point_diameter: Length { nm: 1_000_000 },
                max_power: Power { milliwatts: 10_000 },
            }),
            Tool::Spindle(SpindleConfig {
                max_speed: AngularVelocity { rpm: 12_000 },
                bits: vec![SpindleBit::EndMill { diameter: Length { nm: 2_000_000 } }],
            }),
        ],
        engraving_configs: vec![],
        cutting_configs: vec![],
        workspace_area: WorkspaceSize {
            width: Length { nm: 200_000_000 },
            height: Length { nm: 150_000_000 },
        },
    }
}

fn laser_job() -> JobConfig {
    JobConfig {
        tool: ToolReference { tool: 0, bit: None },
        distance_per_step: distance_per_step_default(),
        tool_power: ToolConfig::Laser {
            laser_power: Power { milliwatts: 5_000 },
            work_speed: Velocity { nm_per_min: 600_000_000 },
        },
    }
}

#[test]
fn default_step_distance_is_a_tenth_of_a_millimeter() {
    assert_eq!(distance_per_step_default().nm, 100_000);
}

#[test]
fn resolving_a_laser_job_builds_a_laser_selection() {
    let machine = test_machine();
    let selection = resolve_tool_selection(&machine, &laser_job()).unwrap();
    match selection {
        ToolSelection::Laser { point_diameter, max_power, laser_power, work_speed } => {
            assert_eq!(point_diameter.nm, 1_000_000);
            assert_eq!(max_power.milliwatts, 10_000);
            assert_eq!(laser_power.milliwatts, 5_000);
            assert_eq!(work_speed.nm_per_min, 600_000_000);
        }
        _ => panic!("expected a laser selection"),
    }
}

#[test]
fn unknown_tool_index_is_rejected() {
    let machine = test_machine();
    let mut job = laser_job();
    job.tool.tool = 9;
    assert_eq!(resolve_tool_selection(&machine, &job), Err(ConfigError::UnknownTool));
}

#[test]
fn spindle_job_without_a_bit_is_rejected() {
    let machine = test_machine();
    let job = JobConfig {
        tool: ToolReference { tool: 1, bit: None },
        distance_per_step: distance_per_step_default(),
        tool_power: ToolConfig::EndMill {
            spindle_rpm: AngularVelocity { rpm: 10_000 },
            max_cut_depth: Length { nm: 100_000 },
            plunge_speed: Velocity { nm_per_min: 50_000_000 },
            work_speed: Velocity { nm_per_min: 100_000_000 },
        },
    };
    assert_eq!(resolve_tool_selection(&machine, &job), Err(ConfigError::MissingBit));
    let mut with_bad_bit = job;
    with_bad_bit.tool.bit = Some(5);
    assert_eq!(resolve_tool_selection(&machine, &with_bad_bit), Err(ConfigError::UnknownBit));
}

#[test]
fn mismatched_power_settings_are_rejected() {
    let machine = test_machine();
    let job = JobConfig {
        tool: ToolReference { tool: 1, bit: Some(0) },
        distance_per_step: distance_per_step_default(),
        tool_power: ToolConfig::Laser {
            laser_power: Power { milliwatts: 5_000 },
            work_speed: Velocity { nm_per_min: 600_000_000 },
        },
    };
    assert_eq!(resolve_tool_selection(&machine, &job), Err(ConfigError::ToolKindMismatch));
}

#[test]
fn describe_renders_the_settings() {
    let config = ToolConfig::Laser {
        laser_power: Power { milliwatts: 5000 },
        work_speed: Velocity { nm_per_min: 600_000_000 },
    };
    assert_eq!(config.describe(), b"Power: 5.000000 W, Work Speed: 600.000000 mm/m".to_vec());
    let drill = ToolConfig::Drill {
        spindle_rpm: AngularVelocity { rpm: 9000 },
        plunge_speed: Velocity { nm_per_min: 50_000_000 },
    };
    assert_eq!(drill.describe(), b"RPM: 9000, Plunge Speed: 50.000000 mm/m".to_vec());
}

#[test]
fn workspace_size_hands_out_its_extent() {
    let ws = test_machine().workspace_area;
    let (w, h) = ws.size();
    assert_eq!(w.nm, 200_000_000);
    assert_eq!(h.nm, 150_000_000);
}
