//! The options of an analyzer run, and the command-line arguments they make.

use vstd::prelude::*;

verus! {

/// Starts the set-up of an analyzer run: the input comes first.
pub struct RTSharkBuilder {}

/// What a [`RTSharkBuilderReady`] holds.
pub ghost struct BuilderV {
    pub input_paths: Seq<Seq<char>>,
    pub live_capture: bool,
    pub metadata_blacklist: Seq<Seq<char>>,
    pub metadata_whitelist: Option<Seq<Seq<char>>>,
    pub capture_filter: Seq<char>,
    pub display_filter: Seq<char>,
    pub env_path: Seq<char>,
    pub options: Seq<Seq<char>>,
    pub disabled_protocols: Seq<Seq<char>>,
    pub enabled_protocols: Seq<Seq<char>>,
    pub output_path: Seq<char>,
    pub decode_as: Seq<Seq<char>>,
}

/// The texts of a list of borrowed strings.
pub open spec fn str_texts(v: Seq<&str>) -> Seq<Seq<char>> {
    v.map_values(|s: &str| s@)
}

/// The texts of a list of owned strings.
pub open spec fn string_texts(v: Seq<String>) -> Seq<Seq<char>> {
    v.map_values(|s: String| s@)
}

/// The options of an analyzer run, with at least one input.
#[derive(Clone)]
pub struct RTSharkBuilderReady<'a> {
    first_input: &'a str,
    more_inputs: Vec<&'a str>,
    live_capture: bool,
    metadata_blacklist: Vec<String>,
    metadata_whitelist: Option<Vec<String>>,
    capture_filter: &'a str,
    display_filter: &'a str,
    env_path: &'a str,
    options: Vec<String>,
    disabled_protocols: Vec<String>,
    enabled_protocols: Vec<String>,
    output_path: &'a str,
    decode_as: Vec<&'a str>,
}

impl<'a> View for RTSharkBuilderReady<'a> {
    type V = BuilderV;

    closed spec fn view(&self) -> BuilderV {
        BuilderV {
            input_paths: seq![self.first_input@] + str_texts(self.more_inputs@),
            live_capture: self.live_capture,
            metadata_blacklist: string_texts(self.metadata_blacklist@),
            metadata_whitelist: match self.metadata_whitelist {
                Some(w) => Some(string_texts(w@)),
                None => None,
            },
            capture_filter: self.capture_filter@,
            display_filter: self.display_filter@,
            env_path: self.env_path@,
            options: string_texts(self.options@),
            disabled_protocols: string_texts(self.disabled_protocols@),
            enabled_protocols: string_texts(self.enabled_protocols@),
            output_path: self.output_path@,
            decode_as: str_texts(self.decode_as@),
        }
    }
}

/// A copy of a list of strings.
fn copy_strings(v: &Vec<String>) -> (r: Vec<String>)
    ensures
        r@ == v@,
{
    let mut r: Vec<String> = Vec::new();
    let mut i: usize = 0;
    while i < v.len()
        invariant
            i <= v@.len(),
            r@ == v@.take(i as int),
        decreases v@.len() - i,
    {
        r.push(v[i].clone());
        i = i + 1;
        assert(r@ =~= v@.take(i as int));
    }
    assert(v@.take(i as int) =~= v@);
    r
}

/// A copy of a list of borrowed strings.
fn copy_strs<'a>(v: &Vec<&'a str>) -> (r: Vec<&'a str>)
    ensures
        r@ == v@,
{
    let mut r: Vec<&'a str> = Vec::new();
    let mut i: usize = 0;
    while i < v.len()
        invariant
            i <= v@.len(),
            r@ == v@.take(i as int),
        decreases v@.len() - i,
    {
        r.push(v[i]);
        i = i + 1;
        assert(r@ =~= v@.take(i as int));
    }
    assert(v@.take(i as int) =~= v@);
    r
}

impl RTSharkBuilder {
    /// Starts a set-up.
    pub fn builder() -> (r: Self) {
        RTSharkBuilder {}
    }

    /// Sets the input: a capture file, or, for a live capture, an interface
    /// or a fifo. Every other option starts unset.
    pub fn input_path<'a>(&mut self, path: &'a str) -> (r: RTSharkBuilderReady<'a>)
        ensures
            r@ == (BuilderV {
                input_paths: seq![path@],
                live_capture: false,
                metadata_blacklist: Seq::empty(),
                metadata_whitelist: None,
                capture_filter: ""@,
                display_filter: ""@,
                env_path: ""@,
                options: Seq::empty(),
                disabled_protocols: Seq::empty(),
                enabled_protocols: Seq::empty(),
                output_path: ""@,
                decode_as: Seq::empty(),
            }),
    {
        let r = RTSharkBuilderReady {
            first_input: path,
            more_inputs: Vec::new(),
            live_capture: false,
            metadata_blacklist: Vec::new(),
            metadata_whitelist: None,
            capture_filter: "",
            display_filter: "",
            env_path: "",
            options: Vec::new(),
            disabled_protocols: Vec::new(),
            enabled_protocols: Vec::new(),
            output_path: "",
            decode_as: Vec::new(),
        };
        assert(r@.input_paths =~= seq![path@]);
        assert(r@.metadata_blacklist =~= Seq::empty());
        assert(r@.options =~= Seq::empty());
        assert(r@.disabled_protocols =~= Seq::empty());
        assert(r@.enabled_protocols =~= Seq::empty());
        assert(r@.decode_as =~= Seq::empty());
        r
    }
}

impl<'a> RTSharkBuilderReady<'a> {
    /// A copy of these options.
    fn copy(&self) -> (r: Self)
        ensures
            r@ == self@,
    {
        let r = RTSharkBuilderReady {
            first_input: self.first_input,
            more_inputs: copy_strs(&self.more_inputs),
            live_capture: self.live_capture,
            metadata_blacklist: copy_strings(&self.metadata_blacklist),
            metadata_whitelist: match &self.metadata_whitelist {
                Some(w) => Some(copy_strings(w)),
                None => None,
            },
            capture_filter: self.capture_filter,
            display_filter: self.display_filter,
            env_path: self.env_path,
            options: copy_strings(&self.options),
            disabled_protocols: copy_strings(&self.disabled_protocols),
            enabled_protocols: copy_strings(&self.enabled_protocols),
            output_path: self.output_path,
            decode_as: copy_strs(&self.decode_as),
        };
        r
    }

    /// Adds an input; more than one is accepted for a live capture only.
    pub fn input_path(&self, path: &'a str) -> (r: Self)
        ensures
            r@ == (BuilderV { input_paths: self@.input_paths.push(path@), ..self@ }),
    {
        let mut new = self.copy();
        new.more_inputs.push(path);
        assert(new@.input_paths =~= self@.input_paths.push(path@));
        new
    }

    /// Reads from interfaces or fifos instead of a capture file.
    pub fn live_capture(&self) -> (r: Self)
        ensures
            r@ == (BuilderV { live_capture: true, ..self@ }),
    {
        let mut new = self.copy();
        new.live_capture = true;
        new
    }

    /// Sets the capture filter, used for a live capture only.
    pub fn capture_filter(&self, filter: &'a str) -> (r: Self)
        ensures
            r@ == (BuilderV { capture_filter: filter@, ..self@ }),
    {
        let mut new = self.copy();
        new.capture_filter = filter;
        new
    }

    /// Sets the display filter.
    pub fn display_filter(&self, filter: &'a str) -> (r: Self)
        ensures
            r@ == (BuilderV { display_filter: filter@, ..self@ }),
    {
        let mut new = self.copy();
        new.display_filter = filter;
        new
    }

    /// Adds a field name whose fields are left out of decoded packets.
    pub fn metadata_blacklist(&self, blacklist: &'a str) -> (r: Self)
        ensures
            r@ == (BuilderV { metadata_blacklist: self@.metadata_blacklist.push(blacklist@), ..self@ }),
    {
        let mut new = self.copy();
        new.metadata_blacklist.push(blacklist.to_owned());
        assert(new@.metadata_blacklist =~= self@.metadata_blacklist.push(blacklist@));
        new
    }

    /// Adds a field name to the fields that the analyzer reports, to the
    /// exclusion of all others.
    pub fn metadata_whitelist(&self, whitelist: &'a str) -> (r: Self)
        ensures
            r@ == (BuilderV {
                metadata_whitelist: Some(
                    match self@.metadata_whitelist {
                        Some(w) => w.push(whitelist@),
                        None => seq![whitelist@],
                    },
                ),
                ..self@
            }),
    {
        let mut new = self.copy();
        let mut wl = match new.metadata_whitelist {
            Some(w) => w,
            None => Vec::new(),
        };
        let ghost before = string_texts(wl@);
        wl.push(whitelist.to_owned());
        assert(string_texts(wl@) =~= before.push(whitelist@));
        new.metadata_whitelist = Some(wl);
        proof {
            if self@.metadata_whitelist is None {
                assert(before =~= Seq::<Seq<char>>::empty());
                assert(before.push(whitelist@) =~= seq![whitelist@]);
            }
        }
        new
    }

    /// Sets the directories searched for the analyzer program.
    pub fn env_path(&self, path: &'a str) -> (r: Self)
        ensures
            r@ == (BuilderV { env_path: path@, ..self@ }),
    {
        let mut new = self.copy();
        new.env_path = path;
        new
    }

    /// Sets the file of TLS session keys, through the `tls.keylog_file` option.
    pub fn keylog_file(&self, path: &'a str) -> (r: Self)
        ensures
            r@ == (BuilderV { options: self@.options.push("tls.keylog_file:"@ + path@), ..self@ }),
    {
        let mut new = self.copy();
        let mut option = "tls.keylog_file:".to_owned();
        option.append(path);
        new.options.push(option);
        assert(new@.options =~= self@.options.push("tls.keylog_file:"@ + path@));
        new
    }

    /// Adds an analyzer preference, as `name:value`.
    pub fn option(&self, option: &'a str) -> (r: Self)
        ensures
            r@ == (BuilderV { options: self@.options.push(option@), ..self@ }),
    {
        let mut new = self.copy();
        new.options.push(option.to_owned());
        assert(new@.options =~= self@.options.push(option@));
        new
    }

    /// Adds a protocol to disable.
    pub fn disable_protocol(&self, protocol: &'a str) -> (r: Self)
        ensures
            r@ == (BuilderV { disabled_protocols: self@.disabled_protocols.push(protocol@), ..self@ }),
    {
        let mut new = self.copy();
        new.disabled_protocols.push(protocol.to_owned());
        assert(new@.disabled_protocols =~= self@.disabled_protocols.push(protocol@));
        new
    }

    /// Adds a protocol to enable.
    pub fn enable_protocol(&self, protocol: &'a str) -> (r: Self)
        ensures
            r@ == (BuilderV { enabled_protocols: self@.enabled_protocols.push(protocol@), ..self@ }),
    {
        let mut new = self.copy();
        new.enabled_protocols.push(protocol.to_owned());
        assert(new@.enabled_protocols =~= self@.enabled_protocols.push(protocol@));
        new
    }

    /// Sets a file where the analyzer also writes the packets it reads.
    pub fn output_path(&self, path: &'a str) -> (r: Self)
        ensures
            r@ == (BuilderV { output_path: path@, ..self@ }),
    {
        let mut new = self.copy();
        new.output_path = path;
        new
    }

    /// Adds a "decode as" rule, as `selector==value,protocol`.
    pub fn decode_as(&self, expr: &'a str) -> (r: Self)
        ensures
            r@ == (BuilderV { decode_as: self@.decode_as.push(expr@), ..self@ }),
    {
        let mut new = self.copy();
        new.decode_as.push(expr);
        assert(new@.decode_as =~= self@.decode_as.push(expr@));
        new
    }
}

/// Why options cannot make a command line.
#[derive(Clone, Copy, Debug, PartialEq, Eq, Structural)]
pub enum ArgsError {
    /// More than one input for a capture file: the analyzer reads one file.
    MultipleInputs,
}

/// Each value preceded by the flag.
pub open spec fn flagged(flag: Seq<char>, vals: Seq<Seq<char>>) -> Seq<Seq<char>>
    decreases vals.len(),
{
    if vals.len() == 0 {
        Seq::empty()
    } else {
        flagged(flag, vals.drop_last()) + seq![flag, vals.last()]
    }
}

/// The flag and the value, where the value is not empty.
pub open spec fn flagged_if_set(flag: Seq<char>, val: Seq<char>) -> Seq<Seq<char>> {
    if val.len() > 0 {
        seq![flag, val]
    } else {
        Seq::empty()
    }
}

/// The analyzer's arguments for a set of options.
pub open spec fn args_of(b: BuilderV) -> Result<Seq<Seq<char>>, ArgsError> {
    if !b.live_capture && b.input_paths.len() > 1 {
        Err(ArgsError::MultipleInputs)
    } else {
        Ok(
            (if b.live_capture {
                flagged("-i"@, b.input_paths)
            } else {
                seq!["-r"@, b.input_paths[0]]
            }) + seq!["-n"@, "-Q"@] + flagged_if_set("-w"@, b.output_path) + (if b.live_capture {
                flagged_if_set("-f"@, b.capture_filter)
            } else {
                Seq::empty()
            }) + flagged_if_set("-Y"@, b.display_filter) + flagged("-d"@, b.decode_as) + flagged(
                "-o"@,
                b.options,
            ) + (match b.metadata_whitelist {
                Some(w) => flagged("-e"@, w),
                None => Seq::empty(),
            }) + flagged("--disable-protocol"@, b.disabled_protocols) + flagged(
                "--enable-protocol"@,
                b.enabled_protocols,
            ),
        )
    }
}

proof fn lemma_flagged_step(flag: Seq<char>, vals: Seq<Seq<char>>, i: int)
    requires
        0 <= i < vals.len(),
    ensures
        flagged(flag, vals.take(i + 1)) == flagged(flag, vals.take(i)) + seq![flag, vals[i]],
{
    assert(vals.take(i + 1).drop_last() =~= vals.take(i));
}

fn push_flagged_strs<'b>(args: &mut Vec<&'b str>, flag: &'b str, vals: &Vec<&'b str>)
    ensures
        str_texts(final(args)@) == str_texts(old(args)@) + flagged(flag@, str_texts(vals@)),
{
    let ghost start = str_texts(args@);
    let mut i: usize = 0;
    assert(str_texts(vals@).take(0) =~= Seq::<Seq<char>>::empty());
    assert(start + flagged(flag@, Seq::<Seq<char>>::empty()) =~= start);
    while i < vals.len()
        invariant
            i <= vals@.len(),
            str_texts(args@) == start + flagged(flag@, str_texts(vals@).take(i as int)),
        decreases vals@.len() - i,
    {
        proof {
            lemma_flagged_step(flag@, str_texts(vals@), i as int);
        }
        let ghost prev = str_texts(args@);
        args.push(flag);
        args.push(vals[i]);
        assert(str_texts(args@) =~= prev + seq![flag@, str_texts(vals@)[i as int]]);
        i = i + 1;
        assert(str_texts(args@) =~= start + flagged(flag@, str_texts(vals@).take(i as int)));
    }
    assert(str_texts(vals@).take(i as int) =~= str_texts(vals@));
}

fn push_flagged_strings<'b>(args: &mut Vec<&'b str>, flag: &'b str, vals: &'b Vec<String>)
    ensures
        str_texts(final(args)@) == str_texts(old(args)@) + flagged(flag@, string_texts(vals@)),
{
    let ghost start = str_texts(args@);
    let mut i: usize = 0;
    assert(string_texts(vals@).take(0) =~= Seq::<Seq<char>>::empty());
    assert(start + flagged(flag@, Seq::<Seq<char>>::empty()) =~= start);
    while i < vals.len()
        invariant
            i <= vals@.len(),
            str_texts(args@) == start + flagged(flag@, string_texts(vals@).take(i as int)),
        decreases vals@.len() - i,
    {
        proof {
            lemma_flagged_step(flag@, string_texts(vals@), i as int);
        }
        let ghost prev = str_texts(args@);
        args.push(flag);
        args.push(vals[i].as_str());
        assert(str_texts(args@) =~= prev + seq![flag@, string_texts(vals@)[i as int]]);
        i = i + 1;
        assert(str_texts(args@) =~= start + flagged(flag@, string_texts(vals@).take(i as int)));
    }
    assert(string_texts(vals@).take(i as int) =~= string_texts(vals@));
}

fn push_flagged_if_set<'b>(args: &mut Vec<&'b str>, flag: &'b str, val: &'b str)
    ensures
        str_texts(final(args)@) == str_texts(old(args)@) + flagged_if_set(flag@, val@),
{
    if !val.is_empty() {
        args.push(flag);
        args.push(val);
        assert(str_texts(args@) =~= str_texts(old(args)@) + flagged_if_set(flag@, val@));
    } else {
        assert(str_texts(args@) =~= str_texts(old(args)@) + flagged_if_set(flag@, val@));
    }
}

impl<'a> RTSharkBuilderReady<'a> {
    /// The analyzer's arguments for these options, without the output format.
    pub fn prepare_args(&self) -> (r: Result<Vec<&str>, ArgsError>)
        ensures
            match r {
                Ok(v) => args_of(self@) == Ok::<Seq<Seq<char>>, ArgsError>(str_texts(v@)),
                Err(e) => args_of(self@) == Err::<Seq<Seq<char>>, ArgsError>(e),
            },
    {
        let ghost b = self@;
        let mut args: Vec<&str> = Vec::new();
        if self.live_capture {
            args.push("-i");
            args.push(self.first_input);
            push_flagged_strs(&mut args, "-i", &self.more_inputs);
            proof {
                assert(str_texts(args@) == seq!["-i"@, self.first_input@] + flagged(
                    "-i"@,
                    str_texts(self.more_inputs@),
                ));
                lemma_flagged_prepend("-i"@, self.first_input@, str_texts(self.more_inputs@));
            }
        } else {
            if self.more_inputs.len() > 0 {
                return Err(ArgsError::MultipleInputs);
            }
            args.push("-r");
            args.push(self.first_input);
        }
        let ghost inputs = str_texts(args@);
        args.push("-n");
        args.push("-Q");
        push_flagged_if_set(&mut args, "-w", self.output_path);
        if self.live_capture {
            push_flagged_if_set(&mut args, "-f", self.capture_filter);
        }
        push_flagged_if_set(&mut args, "-Y", self.display_filter);
        push_flagged_strs(&mut args, "-d", &self.decode_as);
        push_flagged_strings(&mut args, "-o", &self.options);
        match &self.metadata_whitelist {
            Some(w) => push_flagged_strings(&mut args, "-e", w),
            None => {},
        }
        push_flagged_strings(&mut args, "--disable-protocol", &self.disabled_protocols);
        push_flagged_strings(&mut args, "--enable-protocol", &self.enabled_protocols);
        assert(str_texts(args@) =~= args_of(b)->Ok_0);
        Ok(args)
    }

    /// The analyzer's arguments for a streaming run: these options, then the
    /// packet-details markup output, written without buffering.
    pub fn spawn_args(&self) -> (r: Result<Vec<&str>, ArgsError>)
        ensures
            match r {
                Ok(v) => args_of(self@) is Ok && str_texts(v@) == args_of(self@)->Ok_0 + seq![
                    "-Tpdml"@,
                    "-l"@,
                ],
                Err(e) => args_of(self@) == Err::<Seq<Seq<char>>, ArgsError>(e),
            },
    {
        let mut args = match self.prepare_args() {
            Ok(a) => a,
            Err(e) => return Err(e),
        };
        let ghost before = str_texts(args@);
        args.push("-Tpdml");
        args.push("-l");
        assert(str_texts(args@) =~= before + seq!["-Tpdml"@, "-l"@]);
        Ok(args)
    }

    /// The capture file to read, when the input is not a live capture.
    pub fn offline_input(&self) -> (r: Option<&'a str>)
        ensures
            match r {
                Some(p) => !self@.live_capture && p@ == self@.input_paths[0],
                None => self@.live_capture,
            },
    {
        if self.live_capture {
            None
        } else {
            Some(self.first_input)
        }
    }

    /// The directories searched for the analyzer program; empty for the default.
    pub fn search_path(&self) -> (r: &'a str)
        ensures
            r@ == self@.env_path,
    {
        self.env_path
    }

    /// The field names to leave out of decoded packets.
    pub fn blacklist(&self) -> (r: Vec<String>)
        ensures
            string_texts(r@) == self@.metadata_blacklist,
    {
        copy_strings(&self.metadata_blacklist)
    }
}

proof fn lemma_flagged_prepend(flag: Seq<char>, first: Seq<char>, rest: Seq<Seq<char>>)
    ensures
        seq![flag, first] + flagged(flag, rest) == flagged(flag, seq![first] + rest),
    decreases rest.len(),
{
    if rest.len() == 0 {
        assert(seq![first] + rest =~= seq![first]);
        assert(seq![first].drop_last() =~= Seq::<Seq<char>>::empty());
        assert(seq![flag, first] + flagged(flag, rest) =~= seq![flag, first]);
        assert(flagged(flag, Seq::<Seq<char>>::empty()) == Seq::<Seq<char>>::empty());
        assert(seq![first].last() == first);
        assert(flagged(flag, seq![first]) =~= seq![flag, first]);
    } else {
        lemma_flagged_prepend(flag, first, rest.drop_last());
        assert((seq![first] + rest).drop_last() =~= seq![first] + rest.drop_last());
        assert((seq![first] + rest).last() == rest.last());
        assert(seq![flag, first] + flagged(flag, rest) =~= seq![flag, first] + flagged(
            flag,
            rest.drop_last(),
        ) + seq![flag, rest.last()]);
    }
}

} // verus!
