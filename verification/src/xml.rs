//! The iMotions event-source definition, `iMotions.xml`: one `<Sample>` per
//! selected flight parameter, all under the `PilotDataSync` source that every
//! packet names.
use vstd::prelude::*;
use vstd::string::StringExecFns;

verus! {

pub open spec fn xml_header() -> Seq<char> {
    "<EventSource Version=\"1\" Id=\"PilotDataSync\" Name=\"Positional Flight Data\">\n"@
}

pub open spec fn xml_footer() -> Seq<char> {
    "</EventSource>"@
}

/// One `<Field>` line: the field `id`, ranging from `min` to `max`.
pub open spec fn field_line(id: Seq<char>, min: Seq<char>, max: Seq<char>) -> Seq<char> {
    "\t\t<Field Id=\""@ + id + "\" Range=\"Variable\" Min=\""@ + min + "\" Max=\""@ + max
        + "\" />\n"@
}

/// One `<Sample>`: its id and name, then the two fields `FlightModel<field>`
/// and `Pilot<field>`, both ranging from `min` to `max`.
pub open spec fn sample(
    id: Seq<char>,
    name: Seq<char>,
    field: Seq<char>,
    min: Seq<char>,
    max: Seq<char>,
) -> Seq<char> {
    "\t<Sample Id=\""@ + id + "\" Name=\""@ + name + "\">\n"@ + field_line(
        "FlightModel"@ + field,
        min,
        max,
    ) + field_line("Pilot"@ + field, min, max) + "\t</Sample>\n"@
}

pub open spec fn altitude_sample() -> Seq<char> {
    sample("AltitudeSync"@, "Altitude Synchronization"@, "Altitude"@, "0"@, "50000"@)
}

pub open spec fn airspeed_sample() -> Seq<char> {
    sample("AirspeedSync"@, "Airspeed Synchronization"@, "Airspeed"@, "0"@, "600"@)
}

pub open spec fn vertical_velocity_sample() -> Seq<char> {
    sample(
        "VerticalVelocitySync"@,
        "Vertical Velocity Synchronization"@,
        "VerticalVelocity"@,
        "-5000"@,
        "5000"@,
    )
}

pub open spec fn heading_sample() -> Seq<char> {
    sample("HeadingSync"@, "Heading Synchronization"@, "Heading"@, "0"@, "360"@)
}

pub open spec fn roll_sample() -> Seq<char> {
    sample("RollSync"@, "Roll Synchronization"@, "Roll"@, "-180"@, "180"@)
}

pub open spec fn pitch_sample() -> Seq<char> {
    sample("PitchSync"@, "Pitch Synchronization"@, "Pitch"@, "-90"@, "90"@)
}

pub open spec fn yaw_sample() -> Seq<char> {
    sample("YawSync"@, "Yaw Synchronization"@, "Yaw"@, "0"@, "360"@)
}

pub open spec fn gforce_sample() -> Seq<char> {
    sample("GForceSync"@, "G-Force Synchronization"@, "GForce"@, "-10"@, "10"@)
}

/// `s` if `on`, else nothing.
pub open spec fn if_on(on: bool, s: Seq<char>) -> Seq<char> {
    if on {
        s
    } else {
        Seq::<char>::empty()
    }
}

/// Which of the eight flight parameters are selected, in the order altitude,
/// airspeed, vertical velocity, heading, roll, pitch, yaw, g-force.
#[derive(Clone, Copy)]
pub struct Selection {
    pub altitude: bool,
    pub airspeed: bool,
    pub vertical: bool,
    pub heading: bool,
    pub roll: bool,
    pub pitch: bool,
    pub yaw: bool,
    pub gforce: bool,
}

impl Selection {
    /// At least one parameter is selected.
    pub open spec fn any(self) -> bool {
        self.altitude || self.airspeed || self.vertical || self.heading || self.roll || self.pitch
            || self.yaw || self.gforce
    }
}

/// The definition with a sample for each selected parameter, in the order
/// altitude, airspeed, vertical velocity, heading, roll, pitch, yaw, g-force.
pub open spec fn event_source(sel: Selection) -> Seq<char> {
    xml_header() + if_on(sel.altitude, altitude_sample()) + if_on(sel.airspeed, airspeed_sample())
        + if_on(sel.vertical, vertical_velocity_sample()) + if_on(sel.heading, heading_sample())
        + if_on(sel.roll, roll_sample()) + if_on(sel.pitch, pitch_sample()) + if_on(
        sel.yaw,
        yaw_sample(),
    ) + if_on(sel.gforce, gforce_sample()) + xml_footer()
}

/// Appends one `<Field>` line, for the field `prefix` followed by `field`.
fn append_field(contents: &mut String, prefix: &str, field: &str, min: &str, max: &str)
    ensures
        final(contents)@ == old(contents)@ + field_line(prefix@ + field@, min@, max@),
{
    let ghost c = contents@;
    contents.append("\t\t<Field Id=\"");
    contents.append(prefix);
    contents.append(field);
    contents.append("\" Range=\"Variable\" Min=\"");
    contents.append(min);
    contents.append("\" Max=\"");
    contents.append(max);
    contents.append("\" />\n");
    assert(contents@ =~= c + field_line(prefix@ + field@, min@, max@));
}

/// Appends `sample(id, name, field, min, max)` when `on`.
fn append_sample(
    contents: &mut String,
    on: bool,
    id: &str,
    name: &str,
    field: &str,
    min: &str,
    max: &str,
)
    ensures
        final(contents)@ == old(contents)@ + if_on(on, sample(id@, name@, field@, min@, max@)),
{
    let ghost c = contents@;
    if !on {
        assert(contents@ =~= c + if_on(on, sample(id@, name@, field@, min@, max@)));
        return ;
    }
    contents.append("\t<Sample Id=\"");
    contents.append(id);
    contents.append("\" Name=\"");
    contents.append(name);
    contents.append("\">\n");
    let ghost head = contents@;
    append_field(contents, "FlightModel", field, min, max);
    append_field(contents, "Pilot", field, min, max);
    contents.append("\t</Sample>\n");
    assert(head =~= c + ("\t<Sample Id=\""@ + id@ + "\" Name=\""@ + name@ + "\">\n"@));
    assert(contents@ =~= c + sample(id@, name@, field@, min@, max@));
}

/// The text of `iMotions.xml` for the selected parameters, or nothing when
/// none is selected.
pub fn event_source_xml(sel: Selection) -> (r: Option<String>)
    ensures
        !sel.any() <==> r is None,
        r matches Some(x) ==> x@ == event_source(sel),
{
    if !(sel.altitude || sel.airspeed || sel.vertical || sel.heading || sel.roll || sel.pitch
        || sel.yaw || sel.gforce) {
        return None;
    }
    let mut contents = String::from_str(
        "<EventSource Version=\"1\" Id=\"PilotDataSync\" Name=\"Positional Flight Data\">\n",
    );
    append_sample(
        &mut contents,
        sel.altitude,
        "AltitudeSync",
        "Altitude Synchronization",
        "Altitude",
        "0",
        "50000",
    );
    append_sample(
        &mut contents,
        sel.airspeed,
        "AirspeedSync",
        "Airspeed Synchronization",
        "Airspeed",
        "0",
        "600",
    );
    append_sample(
        &mut contents,
        sel.vertical,
        "VerticalVelocitySync",
        "Vertical Velocity Synchronization",
        "VerticalVelocity",
        "-5000",
        "5000",
    );
    append_sample(
        &mut contents,
        sel.heading,
        "HeadingSync",
        "Heading Synchronization",
        "Heading",
        "0",
        "360",
    );
    append_sample(
        &mut contents,
        sel.roll,
        "RollSync",
        "Roll Synchronization",
        "Roll",
        "-180",
        "180",
    );
    append_sample(
        &mut contents,
        sel.pitch,
        "PitchSync",
        "Pitch Synchronization",
        "Pitch",
        "-90",
        "90",
    );
    append_sample(&mut contents, sel.yaw, "YawSync", "Yaw Synchronization", "Yaw", "0", "360");
    append_sample(
        &mut contents,
        sel.gforce,
        "GForceSync",
        "G-Force Synchronization",
        "GForce",
        "-10",
        "10",
    );
    contents.append("</EventSource>");
    Some(contents)
}

proof fn lemma_altitude_text()
    ensures
        altitude_sample() == "\t<Sample Id=\"AltitudeSync\" Name=\"Altitude Synchronization\">\n\t\t<Field Id=\"FlightModelAltitude\" Range=\"Variable\" Min=\"0\" Max=\"50000\" />\n\t\t<Field Id=\"PilotAltitude\" Range=\"Variable\" Min=\"0\" Max=\"50000\" />\n\t</Sample>\n"@,
{
    reveal_strlit("\t<Sample Id=\"");
    reveal_strlit("\" Name=\"");
    reveal_strlit("\">\n");
    reveal_strlit("\t\t<Field Id=\"");
    reveal_strlit("\" Range=\"Variable\" Min=\"");
    reveal_strlit("\" Max=\"");
    reveal_strlit("\" />\n");
    reveal_strlit("FlightModel");
    reveal_strlit("Pilot");
    reveal_strlit("\t</Sample>\n");
    reveal_strlit("AltitudeSync");
    reveal_strlit("Altitude Synchronization");
    reveal_strlit("Altitude");
    reveal_strlit("0");
    reveal_strlit("50000");
    reveal_strlit("\t<Sample Id=\"AltitudeSync\" Name=\"Altitude Synchronization\">\n\t\t<Field Id=\"FlightModelAltitude\" Range=\"Variable\" Min=\"0\" Max=\"50000\" />\n\t\t<Field Id=\"PilotAltitude\" Range=\"Variable\" Min=\"0\" Max=\"50000\" />\n\t</Sample>\n");
    assert(altitude_sample() =~= "\t<Sample Id=\"AltitudeSync\" Name=\"Altitude Synchronization\">\n\t\t<Field Id=\"FlightModelAltitude\" Range=\"Variable\" Min=\"0\" Max=\"50000\" />\n\t\t<Field Id=\"PilotAltitude\" Range=\"Variable\" Min=\"0\" Max=\"50000\" />\n\t</Sample>\n"@);
}

proof fn lemma_airspeed_text()
    ensures
        airspeed_sample() == "\t<Sample Id=\"AirspeedSync\" Name=\"Airspeed Synchronization\">\n\t\t<Field Id=\"FlightModelAirspeed\" Range=\"Variable\" Min=\"0\" Max=\"600\" />\n\t\t<Field Id=\"PilotAirspeed\" Range=\"Variable\" Min=\"0\" Max=\"600\" />\n\t</Sample>\n"@,
{
    reveal_strlit("\t<Sample Id=\"");
    reveal_strlit("\" Name=\"");
    reveal_strlit("\">\n");
    reveal_strlit("\t\t<Field Id=\"");
    reveal_strlit("\" Range=\"Variable\" Min=\"");
    reveal_strlit("\" Max=\"");
    reveal_strlit("\" />\n");
    reveal_strlit("FlightModel");
    reveal_strlit("Pilot");
    reveal_strlit("\t</Sample>\n");
    reveal_strlit("AirspeedSync");
    reveal_strlit("Airspeed Synchronization");
    reveal_strlit("Airspeed");
    reveal_strlit("0");
    reveal_strlit("600");
    reveal_strlit("\t<Sample Id=\"AirspeedSync\" Name=\"Airspeed Synchronization\">\n\t\t<Field Id=\"FlightModelAirspeed\" Range=\"Variable\" Min=\"0\" Max=\"600\" />\n\t\t<Field Id=\"PilotAirspeed\" Range=\"Variable\" Min=\"0\" Max=\"600\" />\n\t</Sample>\n");
    assert(airspeed_sample() =~= "\t<Sample Id=\"AirspeedSync\" Name=\"Airspeed Synchronization\">\n\t\t<Field Id=\"FlightModelAirspeed\" Range=\"Variable\" Min=\"0\" Max=\"600\" />\n\t\t<Field Id=\"PilotAirspeed\" Range=\"Variable\" Min=\"0\" Max=\"600\" />\n\t</Sample>\n"@);
}

proof fn lemma_vertical_velocity_text()
    ensures
        vertical_velocity_sample() == "\t<Sample Id=\"VerticalVelocitySync\" Name=\"Vertical Velocity Synchronization\">\n\t\t<Field Id=\"FlightModelVerticalVelocity\" Range=\"Variable\" Min=\"-5000\" Max=\"5000\" />\n\t\t<Field Id=\"PilotVerticalVelocity\" Range=\"Variable\" Min=\"-5000\" Max=\"5000\" />\n\t</Sample>\n"@,
{
    reveal_strlit("\t<Sample Id=\"");
    reveal_strlit("\" Name=\"");
    reveal_strlit("\">\n");
    reveal_strlit("\t\t<Field Id=\"");
    reveal_strlit("\" Range=\"Variable\" Min=\"");
    reveal_strlit("\" Max=\"");
    reveal_strlit("\" />\n");
    reveal_strlit("FlightModel");
    reveal_strlit("Pilot");
    reveal_strlit("\t</Sample>\n");
    reveal_strlit("VerticalVelocitySync");
    reveal_strlit("Vertical Velocity Synchronization");
    reveal_strlit("VerticalVelocity");
    reveal_strlit("-5000");
    reveal_strlit("5000");
    reveal_strlit("\t<Sample Id=\"VerticalVelocitySync\" Name=\"Vertical Velocity Synchronization\">\n\t\t<Field Id=\"FlightModelVerticalVelocity\" Range=\"Variable\" Min=\"-5000\" Max=\"5000\" />\n\t\t<Field Id=\"PilotVerticalVelocity\" Range=\"Variable\" Min=\"-5000\" Max=\"5000\" />\n\t</Sample>\n");
    assert(vertical_velocity_sample() =~= "\t<Sample Id=\"VerticalVelocitySync\" Name=\"Vertical Velocity Synchronization\">\n\t\t<Field Id=\"FlightModelVerticalVelocity\" Range=\"Variable\" Min=\"-5000\" Max=\"5000\" />\n\t\t<Field Id=\"PilotVerticalVelocity\" Range=\"Variable\" Min=\"-5000\" Max=\"5000\" />\n\t</Sample>\n"@);
}

proof fn lemma_heading_text()
    ensures
        heading_sample() == "\t<Sample Id=\"HeadingSync\" Name=\"Heading Synchronization\">\n\t\t<Field Id=\"FlightModelHeading\" Range=\"Variable\" Min=\"0\" Max=\"360\" />\n\t\t<Field Id=\"PilotHeading\" Range=\"Variable\" Min=\"0\" Max=\"360\" />\n\t</Sample>\n"@,
{
    reveal_strlit("\t<Sample Id=\"");
    reveal_strlit("\" Name=\"");
    reveal_strlit("\">\n");
    reveal_strlit("\t\t<Field Id=\"");
    reveal_strlit("\" Range=\"Variable\" Min=\"");
    reveal_strlit("\" Max=\"");
    reveal_strlit("\" />\n");
    reveal_strlit("FlightModel");
    reveal_strlit("Pilot");
    reveal_strlit("\t</Sample>\n");
    reveal_strlit("HeadingSync");
    reveal_strlit("Heading Synchronization");
    reveal_strlit("Heading");
    reveal_strlit("0");
    reveal_strlit("360");
    reveal_strlit("\t<Sample Id=\"HeadingSync\" Name=\"Heading Synchronization\">\n\t\t<Field Id=\"FlightModelHeading\" Range=\"Variable\" Min=\"0\" Max=\"360\" />\n\t\t<Field Id=\"PilotHeading\" Range=\"Variable\" Min=\"0\" Max=\"360\" />\n\t</Sample>\n");
    assert(heading_sample() =~= "\t<Sample Id=\"HeadingSync\" Name=\"Heading Synchronization\">\n\t\t<Field Id=\"FlightModelHeading\" Range=\"Variable\" Min=\"0\" Max=\"360\" />\n\t\t<Field Id=\"PilotHeading\" Range=\"Variable\" Min=\"0\" Max=\"360\" />\n\t</Sample>\n"@);
}

proof fn lemma_roll_text()
    ensures
        roll_sample() == "\t<Sample Id=\"RollSync\" Name=\"Roll Synchronization\">\n\t\t<Field Id=\"FlightModelRoll\" Range=\"Variable\" Min=\"-180\" Max=\"180\" />\n\t\t<Field Id=\"PilotRoll\" Range=\"Variable\" Min=\"-180\" Max=\"180\" />\n\t</Sample>\n"@,
{
    reveal_strlit("\t<Sample Id=\"");
    reveal_strlit("\" Name=\"");
    reveal_strlit("\">\n");
    reveal_strlit("\t\t<Field Id=\"");
    reveal_strlit("\" Range=\"Variable\" Min=\"");
    reveal_strlit("\" Max=\"");
    reveal_strlit("\" />\n");
    reveal_strlit("FlightModel");
    reveal_strlit("Pilot");
    reveal_strlit("\t</Sample>\n");
    reveal_strlit("RollSync");
    reveal_strlit("Roll Synchronization");
    reveal_strlit("Roll");
    reveal_strlit("-180");
    reveal_strlit("180");
    reveal_strlit("\t<Sample Id=\"RollSync\" Name=\"Roll Synchronization\">\n\t\t<Field Id=\"FlightModelRoll\" Range=\"Variable\" Min=\"-180\" Max=\"180\" />\n\t\t<Field Id=\"PilotRoll\" Range=\"Variable\" Min=\"-180\" Max=\"180\" />\n\t</Sample>\n");
    assert(roll_sample() =~= "\t<Sample Id=\"RollSync\" Name=\"Roll Synchronization\">\n\t\t<Field Id=\"FlightModelRoll\" Range=\"Variable\" Min=\"-180\" Max=\"180\" />\n\t\t<Field Id=\"PilotRoll\" Range=\"Variable\" Min=\"-180\" Max=\"180\" />\n\t</Sample>\n"@);
}

proof fn lemma_pitch_text()
    ensures
        pitch_sample() == "\t<Sample Id=\"PitchSync\" Name=\"Pitch Synchronization\">\n\t\t<Field Id=\"FlightModelPitch\" Range=\"Variable\" Min=\"-90\" Max=\"90\" />\n\t\t<Field Id=\"PilotPitch\" Range=\"Variable\" Min=\"-90\" Max=\"90\" />\n\t</Sample>\n"@,
{
    reveal_strlit("\t<Sample Id=\"");
    reveal_strlit("\" Name=\"");
    reveal_strlit("\">\n");
    reveal_strlit("\t\t<Field Id=\"");
    reveal_strlit("\" Range=\"Variable\" Min=\"");
    reveal_strlit("\" Max=\"");
    reveal_strlit("\" />\n");
    reveal_strlit("FlightModel");
    reveal_strlit("Pilot");
    reveal_strlit("\t</Sample>\n");
    reveal_strlit("PitchSync");
    reveal_strlit("Pitch Synchronization");
    reveal_strlit("Pitch");
    reveal_strlit("-90");
    reveal_strlit("90");
    reveal_strlit("\t<Sample Id=\"PitchSync\" Name=\"Pitch Synchronization\">\n\t\t<Field Id=\"FlightModelPitch\" Range=\"Variable\" Min=\"-90\" Max=\"90\" />\n\t\t<Field Id=\"PilotPitch\" Range=\"Variable\" Min=\"-90\" Max=\"90\" />\n\t</Sample>\n");
    assert(pitch_sample() =~= "\t<Sample Id=\"PitchSync\" Name=\"Pitch Synchronization\">\n\t\t<Field Id=\"FlightModelPitch\" Range=\"Variable\" Min=\"-90\" Max=\"90\" />\n\t\t<Field Id=\"PilotPitch\" Range=\"Variable\" Min=\"-90\" Max=\"90\" />\n\t</Sample>\n"@);
}

proof fn lemma_yaw_text()
    ensures
        yaw_sample() == "\t<Sample Id=\"YawSync\" Name=\"Yaw Synchronization\">\n\t\t<Field Id=\"FlightModelYaw\" Range=\"Variable\" Min=\"0\" Max=\"360\" />\n\t\t<Field Id=\"PilotYaw\" Range=\"Variable\" Min=\"0\" Max=\"360\" />\n\t</Sample>\n"@,
{
    reveal_strlit("\t<Sample Id=\"");
    reveal_strlit("\" Name=\"");
    reveal_strlit("\">\n");
    reveal_strlit("\t\t<Field Id=\"");
    reveal_strlit("\" Range=\"Variable\" Min=\"");
    reveal_strlit("\" Max=\"");
    reveal_strlit("\" />\n");
    reveal_strlit("FlightModel");
    reveal_strlit("Pilot");
    reveal_strlit("\t</Sample>\n");
    reveal_strlit("YawSync");
    reveal_strlit("Yaw Synchronization");
    reveal_strlit("Yaw");
    reveal_strlit("0");
    reveal_strlit("360");
    reveal_strlit("\t<Sample Id=\"YawSync\" Name=\"Yaw Synchronization\">\n\t\t<Field Id=\"FlightModelYaw\" Range=\"Variable\" Min=\"0\" Max=\"360\" />\n\t\t<Field Id=\"PilotYaw\" Range=\"Variable\" Min=\"0\" Max=\"360\" />\n\t</Sample>\n");
    assert(yaw_sample() =~= "\t<Sample Id=\"YawSync\" Name=\"Yaw Synchronization\">\n\t\t<Field Id=\"FlightModelYaw\" Range=\"Variable\" Min=\"0\" Max=\"360\" />\n\t\t<Field Id=\"PilotYaw\" Range=\"Variable\" Min=\"0\" Max=\"360\" />\n\t</Sample>\n"@);
}

proof fn lemma_gforce_text()
    ensures
        gforce_sample() == "\t<Sample Id=\"GForceSync\" Name=\"G-Force Synchronization\">\n\t\t<Field Id=\"FlightModelGForce\" Range=\"Variable\" Min=\"-10\" Max=\"10\" />\n\t\t<Field Id=\"PilotGForce\" Range=\"Variable\" Min=\"-10\" Max=\"10\" />\n\t</Sample>\n"@,
{
    reveal_strlit("\t<Sample Id=\"");
    reveal_strlit("\" Name=\"");
    reveal_strlit("\">\n");
    reveal_strlit("\t\t<Field Id=\"");
    reveal_strlit("\" Range=\"Variable\" Min=\"");
    reveal_strlit("\" Max=\"");
    reveal_strlit("\" />\n");
    reveal_strlit("FlightModel");
    reveal_strlit("Pilot");
    reveal_strlit("\t</Sample>\n");
    reveal_strlit("GForceSync");
    reveal_strlit("G-Force Synchronization");
    reveal_strlit("GForce");
    reveal_strlit("-10");
    reveal_strlit("10");
    reveal_strlit("\t<Sample Id=\"GForceSync\" Name=\"G-Force Synchronization\">\n\t\t<Field Id=\"FlightModelGForce\" Range=\"Variable\" Min=\"-10\" Max=\"10\" />\n\t\t<Field Id=\"PilotGForce\" Range=\"Variable\" Min=\"-10\" Max=\"10\" />\n\t</Sample>\n");
    assert(gforce_sample() =~= "\t<Sample Id=\"GForceSync\" Name=\"G-Force Synchronization\">\n\t\t<Field Id=\"FlightModelGForce\" Range=\"Variable\" Min=\"-10\" Max=\"10\" />\n\t\t<Field Id=\"PilotGForce\" Range=\"Variable\" Min=\"-10\" Max=\"10\" />\n\t</Sample>\n"@);
}

/// Law: the text of `iMotions.xml` for any selection is the `PilotDataSync`
/// event-source line, then, for each selected parameter in the order
/// altitude, airspeed, vertical velocity, heading, roll, pitch, yaw, g-force,
/// its sample with its flight-model and pilot fields and their range, then
/// the closing line.
pub proof fn law_xml_text_of_every_selection(sel: Selection)
    ensures
        event_source(sel) == "<EventSource Version=\"1\" Id=\"PilotDataSync\" Name=\"Positional Flight Data\">\n"@ + (if sel.altitude {
            "\t<Sample Id=\"AltitudeSync\" Name=\"Altitude Synchronization\">\n\t\t<Field Id=\"FlightModelAltitude\" Range=\"Variable\" Min=\"0\" Max=\"50000\" />\n\t\t<Field Id=\"PilotAltitude\" Range=\"Variable\" Min=\"0\" Max=\"50000\" />\n\t</Sample>\n"@
        } else {
            Seq::empty()
        }) + (if sel.airspeed {
            "\t<Sample Id=\"AirspeedSync\" Name=\"Airspeed Synchronization\">\n\t\t<Field Id=\"FlightModelAirspeed\" Range=\"Variable\" Min=\"0\" Max=\"600\" />\n\t\t<Field Id=\"PilotAirspeed\" Range=\"Variable\" Min=\"0\" Max=\"600\" />\n\t</Sample>\n"@
        } else {
            Seq::empty()
        }) + (if sel.vertical {
            "\t<Sample Id=\"VerticalVelocitySync\" Name=\"Vertical Velocity Synchronization\">\n\t\t<Field Id=\"FlightModelVerticalVelocity\" Range=\"Variable\" Min=\"-5000\" Max=\"5000\" />\n\t\t<Field Id=\"PilotVerticalVelocity\" Range=\"Variable\" Min=\"-5000\" Max=\"5000\" />\n\t</Sample>\n"@
        } else {
            Seq::empty()
        }) + (if sel.heading {
            "\t<Sample Id=\"HeadingSync\" Name=\"Heading Synchronization\">\n\t\t<Field Id=\"FlightModelHeading\" Range=\"Variable\" Min=\"0\" Max=\"360\" />\n\t\t<Field Id=\"PilotHeading\" Range=\"Variable\" Min=\"0\" Max=\"360\" />\n\t</Sample>\n"@
        } else {
            Seq::empty()
        }) + (if sel.roll {
            "\t<Sample Id=\"RollSync\" Name=\"Roll Synchronization\">\n\t\t<Field Id=\"FlightModelRoll\" Range=\"Variable\" Min=\"-180\" Max=\"180\" />\n\t\t<Field Id=\"PilotRoll\" Range=\"Variable\" Min=\"-180\" Max=\"180\" />\n\t</Sample>\n"@
        } else {
            Seq::empty()
        }) + (if sel.pitch {
            "\t<Sample Id=\"PitchSync\" Name=\"Pitch Synchronization\">\n\t\t<Field Id=\"FlightModelPitch\" Range=\"Variable\" Min=\"-90\" Max=\"90\" />\n\t\t<Field Id=\"PilotPitch\" Range=\"Variable\" Min=\"-90\" Max=\"90\" />\n\t</Sample>\n"@
        } else {
            Seq::empty()
        }) + (if sel.yaw {
            "\t<Sample Id=\"YawSync\" Name=\"Yaw Synchronization\">\n\t\t<Field Id=\"FlightModelYaw\" Range=\"Variable\" Min=\"0\" Max=\"360\" />\n\t\t<Field Id=\"PilotYaw\" Range=\"Variable\" Min=\"0\" Max=\"360\" />\n\t</Sample>\n"@
        } else {
            Seq::empty()
        }) + (if sel.gforce {
            "\t<Sample Id=\"GForceSync\" Name=\"G-Force Synchronization\">\n\t\t<Field Id=\"FlightModelGForce\" Range=\"Variable\" Min=\"-10\" Max=\"10\" />\n\t\t<Field Id=\"PilotGForce\" Range=\"Variable\" Min=\"-10\" Max=\"10\" />\n\t</Sample>\n"@
        } else {
            Seq::empty()
        }) + "</EventSource>"@,
{
    lemma_altitude_text();
    lemma_airspeed_text();
    lemma_vertical_velocity_text();
    lemma_heading_text();
    lemma_roll_text();
    lemma_pitch_text();
    lemma_yaw_text();
    lemma_gforce_text();
    reveal_strlit("<EventSource Version=\"1\" Id=\"PilotDataSync\" Name=\"Positional Flight Data\">\n");
    reveal_strlit("</EventSource>");
}

} // verus!
