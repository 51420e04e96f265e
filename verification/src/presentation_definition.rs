//! The verifier's requirement document, and the top-level check of a
//! holder's authorization response against it.

use vstd::prelude::*;

use crate::credential_format::{ClaimFormatDesignation, ClaimFormatMap, ClaimFormatPayload};
use crate::error::Error;
use crate::input_descriptor::{spec_descriptor_error, spec_descriptor_ok, InputDescriptor};
use crate::json_value::JsonValue;
use crate::presentation_submission::PresentationSubmission;
use crate::response::{decode_presentation, spec_decoded_presentation, AuthorizationResponse};

verus! {

/// Whether a submission satisfies a definition against the decoded
/// presentation `vp`: the submission names the definition's id, and every
/// input descriptor has a descriptor-map entry (the last entry with its id
/// winning) under which the presentation passes the descriptor's checks.
pub open spec fn spec_submission_ok(
    def: PresentationDefinition,
    sub: PresentationSubmission,
    vp: JsonValue,
) -> bool {
    &&& sub.definition_id@ == def.id@
    &&& forall|i: int|
        0 <= i < def.input_descriptors@.len() ==> spec_descriptor_covered(
            sub,
            vp,
            #[trigger] def.input_descriptors@[i],
        )
}

/// Whether the submission carries an entry for the descriptor `d` (the
/// last entry with its id winning) under which the presentation passes
/// the descriptor's checks.
pub open spec fn spec_descriptor_covered(
    sub: PresentationSubmission,
    vp: JsonValue,
    d: InputDescriptor,
) -> bool {
    match PresentationSubmission::spec_find_entry(sub.descriptor_map@, d.id@) {
        Some(entry) => spec_descriptor_ok(d, vp, entry),
        None => false,
    }
}

/// Whether every input descriptor before position `n` is covered by the
/// submission against the presentation `vp`.
pub open spec fn spec_descriptors_ok_to(
    def: PresentationDefinition,
    sub: PresentationSubmission,
    vp: JsonValue,
    n: int,
) -> bool {
    forall|j: int|
        0 <= j < n ==> spec_descriptor_covered(sub, vp, #[trigger] def.input_descriptors@[j])
}

/// Which error a failing submission check reports, the first failure in
/// descriptor order deciding: a descriptor with no entry reports that its
/// id is missing, and a descriptor whose checks fail reports that
/// descriptor's own error.
pub open spec fn spec_submission_error(
    def: PresentationDefinition,
    sub: PresentationSubmission,
    vp: JsonValue,
    r: Result<(), Error>,
) -> bool {
    forall|i: int|
        (0 <= i < def.input_descriptors@.len() && sub.definition_id@ == def.id@
            && spec_descriptors_ok_to(def, sub, vp, i) && !spec_descriptor_covered(
            sub,
            vp,
            #[trigger] def.input_descriptors@[i],
        )) ==> match PresentationSubmission::spec_find_entry(
            sub.descriptor_map@,
            def.input_descriptors@[i].id@,
        ) {
            Some(entry) => r is Err && spec_descriptor_error(
                def.input_descriptors@[i],
                vp,
                entry,
                r,
            ),
            None => r == Err::<(), Error>(
                Error::MissingDescriptor { id: def.input_descriptors@[i].id },
            ),
        }
}

/// Whether a holder's response is accepted by a definition: a pure
/// function of the two values, so repeated validation of the same inputs
/// always agrees.
pub open spec fn spec_response_accepted(
    def: PresentationDefinition,
    resp: AuthorizationResponse,
) -> bool {
    match resp {
        AuthorizationResponse::Jwt(_) => false,
        AuthorizationResponse::Unencoded(u) => match spec_decoded_presentation(u.vp_token@) {
            None => false,
            Some(vp) => spec_submission_ok(def, u.presentation_submission, vp),
        },
    }
}

/// A presentation definition: what proofs a verifier requires. It owns an
/// id, an ordered list of input descriptors, and optional name, purpose
/// and format map.
#[derive(Debug)]
pub struct PresentationDefinition {
    pub id: String,
    pub input_descriptors: Vec<InputDescriptor>,
    pub name: Option<String>,
    pub purpose: Option<String>,
    pub format: Option<ClaimFormatMap>,
}

impl PresentationDefinition {
    /// Creates a definition with the given id and one input descriptor.
    pub fn new(id: String, input_descriptor: InputDescriptor) -> (r: Self)
        ensures
            r.id == id,
            r.input_descriptors@ =~= seq![input_descriptor],
            r.name is None,
            r.purpose is None,
            r.format is None,
    {
        let mut descriptors: Vec<InputDescriptor> = Vec::new();
        descriptors.push(input_descriptor);
        Self { id, input_descriptors: descriptors, name: None, purpose: None, format: None }
    }

    /// The id of the presentation definition.
    pub fn id(&self) -> (r: &String)
        ensures
            r == self.id,
    {
        &self.id
    }

    /// Appends one more input descriptor.
    pub fn add_input_descriptors(self, input_descriptor: InputDescriptor) -> (r: Self)
        ensures
            r.input_descriptors@ == self.input_descriptors@.push(input_descriptor),
            r.id == self.id,
            r.name == self.name,
            r.purpose == self.purpose,
            r.format == self.format,
    {
        let mut s = self;
        s.input_descriptors.push(input_descriptor);
        s
    }

    /// The input descriptors of the presentation definition.
    pub fn input_descriptors(&self) -> (r: &Vec<InputDescriptor>)
        ensures
            r == self.input_descriptors,
    {
        &self.input_descriptors
    }

    /// A mutable borrow of the input descriptors.
    pub fn input_descriptors_mut(&mut self) -> (r: &mut Vec<InputDescriptor>)
        ensures
            *r == old(self).input_descriptors,
            *final(self) == (PresentationDefinition {
                input_descriptors: *final(r),
                ..*old(self)
            }),
    {
        &mut self.input_descriptors
    }

    /// Sets the human-friendly name of the definition.
    pub fn set_name(self, name: String) -> (r: Self)
        ensures
            r == (PresentationDefinition { name: Some(name), ..self }),
    {
        Self { name: Some(name), ..self }
    }

    /// The name of the presentation definition.
    pub fn name(&self) -> (r: Option<&String>)
        ensures
            match r {
                Some(n) => self.name == Some(*n),
                None => self.name is None,
            },
    {
        self.name.as_ref()
    }

    /// Sets the purpose the definition's inputs are used for.
    pub fn set_purpose(self, purpose: String) -> (r: Self)
        ensures
            r == (PresentationDefinition { purpose: Some(purpose), ..self }),
    {
        Self { purpose: Some(purpose), ..self }
    }

    /// The purpose of the presentation definition.
    pub fn purpose(&self) -> (r: Option<&String>)
        ensures
            match r {
                Some(p) => self.purpose == Some(*p),
                None => self.purpose is None,
            },
    {
        self.purpose.as_ref()
    }

    /// Attaches the claim format configurations the verifier can process.
    pub fn set_format(self, format: ClaimFormatMap) -> (r: Self)
        ensures
            r == (PresentationDefinition { format: Some(format), ..self }),
    {
        Self { format: Some(format), ..self }
    }

    /// Adds one claim format configuration, creating the format map when
    /// none is attached yet.
    pub fn add_format(self, format: ClaimFormatDesignation, value: ClaimFormatPayload) -> (r: Self)
        ensures
            r.format matches Some(m) && m@ == (match self.format {
                Some(m0) => m0@,
                None => Seq::<(ClaimFormatDesignation, ClaimFormatPayload)>::empty(),
            }).push((format, value)),
            r.id == self.id,
            r.input_descriptors == self.input_descriptors,
            r.name == self.name,
            r.purpose == self.purpose,
    {
        let mut s = self;
        let mut map = match s.format {
            Some(m) => m,
            None => ClaimFormatMap::new(),
        };
        map.insert(format, value);
        s.format = Some(map);
        s
    }

    /// The format map of the presentation definition.
    pub fn format(&self) -> (r: Option<&ClaimFormatMap>)
        ensures
            match r {
                Some(m) => self.format == Some(*m),
                None => self.format is None,
            },
    {
        self.format.as_ref()
    }

    /// Checks a submission against this definition and the decoded
    /// presentation `vp`: the submission must name this definition's id,
    /// and every input descriptor must pass under its descriptor-map
    /// entry; no descriptor may be silently skipped.
    #[verifier::loop_isolation(false)]
    pub fn validate_submission(
        &self,
        submission: &PresentationSubmission,
        vp: &JsonValue,
    ) -> (r: Result<(), Error>)
        ensures
            r is Ok <==> spec_submission_ok(*self, *submission, *vp),
            submission.definition_id@ != self.id@ ==> r == Err::<(), Error>(
                Error::DefinitionIdMismatch,
            ),
            spec_submission_error(*self, *submission, *vp, r),
    {
        if !submission.definition_id().eq(&self.id) {
            return Err(Error::DefinitionIdMismatch);
        }

        let descriptors = &self.input_descriptors;
        let mut i: usize = 0;
        while i < descriptors.len()
            invariant
                i <= descriptors@.len(),
                forall|j: int|
                    0 <= j < i ==> spec_descriptor_covered(
                        *submission,
                        *vp,
                        #[trigger] descriptors@[j],
                    ),
            decreases descriptors@.len() - i,
        {
            let descriptor = &descriptors[i];
            match submission.find_entry(descriptor.id()) {
                None => {
                    proof {
                        assert(!spec_descriptor_covered(
                            *submission,
                            *vp,
                            descriptors@[i as int],
                        ));
                    }
                    return Err(Error::MissingDescriptor { id: descriptor.id.clone() });
                },
                Some(entry) => {
                    match descriptor.validate_verifiable_presentation(vp, entry) {
                        Ok(_) => {
                            proof {
                                assert(spec_descriptor_covered(
                                    *submission,
                                    *vp,
                                    descriptors@[i as int],
                                ));
                            }
                        },
                        Err(e) => {
                            proof {
                                assert(!spec_descriptor_covered(
                                    *submission,
                                    *vp,
                                    descriptors@[i as int],
                                ));
                            }
                            return Err(e);
                        },
                    }
                },
            }
            i = i + 1;
        }

        Ok(())
    }

    /// Checks a holder's authorization response against this definition.
    /// An encoded (signed-envelope) response is not supported and always
    /// fails; for the unencoded variant the embedded presentation token is
    /// decoded without signature verification and the submission is
    /// checked against this definition, all or nothing.
    pub fn validate_authorization_response(&self, auth_response: &AuthorizationResponse) -> (r:
        Result<(), Error>)
        ensures
            r is Ok <==> spec_response_accepted(*self, *auth_response),
            match *auth_response {
                AuthorizationResponse::Jwt(_) => r == Err::<(), Error>(
                    Error::UnsupportedResponseEncoding,
                ),
                AuthorizationResponse::Unencoded(u) => match spec_decoded_presentation(
                    u.vp_token@,
                ) {
                    None => r == Err::<(), Error>(Error::PresentationDecodeFailed),
                    Some(vp) => (r is Ok <==> spec_submission_ok(
                        *self,
                        u.presentation_submission,
                        vp,
                    )) && (u.presentation_submission.definition_id@ != self.id@ ==> r == Err::<
                        (),
                        Error,
                    >(Error::DefinitionIdMismatch)) && spec_submission_error(
                        *self,
                        u.presentation_submission,
                        vp,
                        r,
                    ),
                },
            },
    {
        match auth_response {
            AuthorizationResponse::Jwt(_) => Err(Error::UnsupportedResponseEncoding),
            AuthorizationResponse::Unencoded(response) => {
                match decode_presentation(response.vp_token()) {
                    None => Err(Error::PresentationDecodeFailed),
                    Some(vp) => self.validate_submission(
                        response.presentation_submission(),
                        &vp,
                    ),
                }
            },
        }
    }
}

} // verus!
